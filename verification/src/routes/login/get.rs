//! The login form.

use crate::http::html_page;
use crate::http::HttpResponse;
use crate::routes::flash::compose;
use crate::routes::flash::flash_html;
use crate::routes::flash::render_flash;
use crate::routes::flash::text_of;
use vstd::prelude::*;

verus! {

/// The login page, up to the place of the message.
pub const LOGIN_PAGE_HEAD: &'static str = "<!DOCTYPE html>
<html lang=\"en\">
<head>
    <meta http-equiv=\"content-type\" content=\"text/html; charset=utf-8\">
    <title>Login</title>
</head>
<body>
    ";

/// The login page, from the place of the message on.
pub const LOGIN_PAGE_TAIL: &'static str = "
    <form action=\"/login\" method=\"post\">
        <label>Username
            <input
type=\"text\"
placeholder=\"Enter Username\"
                name=\"username\"
            >
        </label>
        <label>Password
            <input
                type=\"password\"
                placeholder=\"Enter Password\"
                name=\"password\"
            >
</label>
        <button type=\"submit\">Login</button>
    </form>
</body> </html>";

/// The login page, showing the message that was left for it, if one was.
pub fn login_form(flash: Option<&str>) -> (response: HttpResponse)
    ensures
        response@ == html_page(LOGIN_PAGE_HEAD@ + flash_html(text_of(flash)) + LOGIN_PAGE_TAIL@),
{
    let message = render_flash(flash);
    let page = compose(LOGIN_PAGE_HEAD, message.as_str(), LOGIN_PAGE_TAIL);
    HttpResponse::html(page.as_str())
}

} // verus!
