//! The form for a change of password.

use crate::http::html_page;
use crate::http::HttpResponse;
use crate::routes::flash::compose;
use crate::routes::flash::flash_html;
use crate::routes::flash::render_flash;
use crate::routes::flash::text_of;
use vstd::prelude::*;

verus! {

/// The page, up to the place of the message.
pub const PASSWORD_PAGE_HEAD: &'static str = "<!DOCTYPE html>
<html lang=\"en\">
<head>
    <meta http-equiv=\"content-type\" content=\"text/html; charset=utf-8\">
    <title>Change Password</title>
</head>
<body>
    ";

/// The page, from the place of the message on.
pub const PASSWORD_PAGE_TAIL: &'static str = "
    <form action=\"/admin/password\" method=\"post\">
        <label>Current password
                <input
                type=\"password\"
                placeholder=\"Enter current password\"
                name=\"current_password\"
            >
        </label>
        <br>
        <label>New password
            <input
                type=\"password\"
                placeholder=\"Enter new password\"
                name=\"new_password\"
            >
        </label>
        <br>
        <label>Confirm new password
            <input
                type=\"password\"
                placeholder=\"Type the new password again\"
                name=\"new_password_check\"
            >
        </label>
        <br>
        <button type=\"submit\">Change password</button>
</form>
    <p><a href=\"/admin/dashboard\">&lt;- Back</a></p>
</body>
</html>";

/// The page with the form for a change of password, showing the message
/// that was left for it, if one was.
pub fn change_password_form(flash: Option<&str>) -> (response: HttpResponse)
    ensures
        response@ == html_page(
            PASSWORD_PAGE_HEAD@ + flash_html(text_of(flash)) + PASSWORD_PAGE_TAIL@,
        ),
{
    let message = render_flash(flash);
    let page = compose(PASSWORD_PAGE_HEAD, message.as_str(), PASSWORD_PAGE_TAIL);
    HttpResponse::html(page.as_str())
}

} // verus!
