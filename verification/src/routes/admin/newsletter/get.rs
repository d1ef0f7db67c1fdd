//! The form for a newsletter issue.

use crate::http::html_page;
use crate::http::HttpResponse;
use crate::routes::flash::compose;
use crate::routes::flash::flash_html;
use crate::routes::flash::render_flash;
use crate::routes::flash::text_of;
use vstd::prelude::*;

verus! {

/// The page, up to the place of the message.
pub const NEWSLETTER_PAGE_HEAD: &'static str = "<!DOCTYPE html>
<html lang=\"en\">
<head>
    <meta http-equiv=\"content-type\" content=\"text/html; charset=utf-8\">
    <title>Send Newsletter</title>
</head>
<body>
    ";

/// The page, from the place of the message on.
pub const NEWSLETTER_PAGE_TAIL: &'static str = "
    <form action=\"/admin/newsletter\" method=\"post\">
        <label>Title
                <input
                type=\"text\"
                placeholder=\"Enter title of your email\"
                name=\"title\"
            >
        </label>
        <br>
        <label>HTML content
            <input
                type=\"text\"
                placeholder=\"Enter html content\"
                name=\"html\"
            >
        </label>
        <br>
        <label>TEXT content
            <input
                type=\"text\"
                placeholder=\"Enter text content\"
                name=\"text\"
            >
        </label>
        <br>
        <button type=\"submit\">Send newsletter</button>
</form>
    <p><a href=\"/admin/dashboard\">&lt;- Back</a></p>
</body>
</html>";

/// The page with the form for a newsletter issue, showing the message that
/// was left for it, if one was.
pub fn send_newsletter(flash: Option<&str>) -> (response: HttpResponse)
    ensures
        response@ == html_page(
            NEWSLETTER_PAGE_HEAD@ + flash_html(text_of(flash)) + NEWSLETTER_PAGE_TAIL@,
        ),
{
    let message = render_flash(flash);
    let page = compose(NEWSLETTER_PAGE_HEAD, message.as_str(), NEWSLETTER_PAGE_TAIL);
    HttpResponse::html(page.as_str())
}

} // verus!
