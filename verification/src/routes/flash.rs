//! Flash messages: what one page leaves for the next to show, in a signed
//! cookie.

use crate::http::redirect_with_cookie;
use crate::http::HttpResponse;
use crate::trusted::sign_cookie;
use crate::trusted::sign_cookie_on_path;
use crate::trusted::signed_cookie;
use crate::trusted::signed_cookie_on_path;
use vstd::prelude::*;
use vstd::string::*;

verus! {

/// The name of the cookie that carries the message.
pub const FLASH_COOKIE: &'static str = "_flash";

/// The key that cookies are signed with: at least 64 bytes.
pub struct CookieKey {
    bytes: Vec<u8>,
}

impl View for CookieKey {
    type V = Seq<u8>;

    closed spec fn view(&self) -> Seq<u8> {
        self.bytes@
    }
}

/// The flash cookie for a message, as the value of a `Set-Cookie` header.
pub open spec fn flash_cookie(key: Seq<u8>, message: Seq<char>) -> Seq<char> {
    signed_cookie(key, FLASH_COOKIE@, message)
}

/// The flash cookie for a message, bound to a path.
pub open spec fn flash_cookie_on_path(key: Seq<u8>, message: Seq<char>, path: Seq<char>) -> Seq<
    char,
> {
    signed_cookie_on_path(key, FLASH_COOKIE@, message, path)
}

impl CookieKey {
    #[verifier::type_invariant]
    closed spec fn long_enough(&self) -> bool {
        self.bytes@.len() >= 64
    }

    /// Takes the bytes as a key if they are at least 64.
    pub fn new(bytes: Vec<u8>) -> (key: Option<CookieKey>)
        ensures
            key is Some <==> bytes@.len() >= 64,
            key matches Some(k) ==> k@ == bytes@,
    {
        if bytes.len() >= 64 {
            Some(CookieKey { bytes })
        } else {
            None
        }
    }

    /// The flash cookie for a message, signed with this key.
    pub fn flash(&self, message: &str) -> (header: String)
        ensures
            header@ == flash_cookie(self@, message@),
    {
        proof {
            use_type_invariant(self);
        }
        sign_cookie(&self.bytes, FLASH_COOKIE, message)
    }

    /// The flash cookie for a message, bound to a path and signed with this key.
    pub fn flash_on_path(&self, message: &str, path: &str) -> (header: String)
        ensures
            header@ == flash_cookie_on_path(self@, message@, path@),
    {
        proof {
            use_type_invariant(self);
        }
        sign_cookie_on_path(&self.bytes, FLASH_COOKIE, message, path)
    }

    /// The response that sends the client to `location` with a message to
    /// show there.
    pub fn redirect_with_flash(&self, location: &str, message: &str) -> (response: HttpResponse)
        ensures
            response@ == redirect_with_cookie(location@, flash_cookie(self@, message@)),
    {
        let cookie = self.flash(message);
        HttpResponse::redirect_setting(location, cookie.as_str())
    }
}

/// How a page shows the message that was left for it: in italics, in a
/// paragraph of its own; and nothing where no message was left.
pub open spec fn flash_html(message: Option<Seq<char>>) -> Seq<char> {
    match message {
        None => Seq::<char>::empty(),
        Some(text) => "<p><i>"@ + text + "</i></p>"@,
    }
}

/// The text of a message, if there is one.
pub open spec fn text_of(message: Option<&str>) -> Option<Seq<char>> {
    match message {
        Some(text) => Some(text@),
        None => None,
    }
}

/// Writes the message that was left for a page as that page shows it.
pub fn render_flash(message: Option<&str>) -> (html: String)
    ensures
        html@ == flash_html(text_of(message)),
{
    match message {
        None => String::new(),
        Some(text) => {
            let mut html = String::from_str("<p><i>");
            html.append(text);
            html.append("</i></p>");
            html
        },
    }
}

/// A page: what stands before the place of the message, the message, and
/// what stands after it.
pub fn compose(head: &str, middle: &str, tail: &str) -> (page: String)
    ensures
        page@ == head@ + middle@ + tail@,
{
    let mut page = String::from_str(head);
    page.append(middle);
    page.append(tail);
    page
}

} // verus!
