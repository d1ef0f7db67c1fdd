//! Logging out.

use crate::authentication::middleware::UserId;
use crate::http::redirect_to;
use crate::http::redirect_with_cookie;
use crate::http::HttpResponse;
use crate::routes::flash::flash_cookie_on_path;
use crate::routes::flash::CookieKey;
use vstd::prelude::*;

verus! {

/// What the user is told after logging out.
pub const LOGGED_OUT_MESSAGE: &'static str = "You have successfully logged out.";

/// What a request to log out comes to.
#[derive(Debug)]
pub struct LogOut {
    /// Whether the session is to be destroyed.
    pub end_session: bool,
    /// The answer to the client.
    pub response: HttpResponse,
}

/// Decides a request to log out. Without a user in the session there is
/// nothing to end: the client is sent to the login form. With one, the
/// session is to be destroyed, and the client is sent to the login form
/// with the message that it has logged out.
pub fn log_out(session_user: Option<UserId>, cookie_key: &CookieKey) -> (outcome: LogOut)
    ensures
        outcome.end_session == session_user is Some,
        outcome.response@ == (if session_user is Some {
            redirect_with_cookie(
                "/login"@,
                flash_cookie_on_path(cookie_key@, LOGGED_OUT_MESSAGE@, "/"@),
            )
        } else {
            redirect_to("/login"@)
        }),
{
    match session_user {
        None => LogOut { end_session: false, response: HttpResponse::redirect("/login") },
        Some(_) => {
            let cookie = cookie_key.flash_on_path(LOGGED_OUT_MESSAGE, "/");
            LogOut {
                end_session: true,
                response: HttpResponse::redirect_setting("/login", cookie.as_str()),
            }
        },
    }
}

} // verus!
