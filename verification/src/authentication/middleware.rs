//! The authenticated caller's identity.

use crate::http::redirect_to;
use crate::http::HttpResponse;
use vstd::prelude::*;

verus! {

/// The identity of an authenticated caller: the 128 bits of its identifier.
#[derive(Copy, Clone, Debug, PartialEq, Eq, Structural)]
pub struct UserId(pub u128);

impl View for UserId {
    type V = u128;

    open spec fn view(&self) -> u128 {
        self.0
    }
}

/// Lets a request pass when its session names a user, and sends every other
/// request to the login form.
///
/// The user that comes back is the one to attach to the request before it is
/// handed on; the response that comes back is the answer to give instead.
pub fn reject_anonymous_users(session_user: Option<UserId>) -> (outcome: Result<
    UserId,
    HttpResponse,
>)
    ensures
        match session_user {
            Some(user_id) => outcome matches Ok(passed) && passed == user_id,
            None => outcome matches Err(response) && response@ == redirect_to("/login"@),
        },
{
    match session_user {
        Some(user_id) => Ok(user_id),
        None => Err(HttpResponse::redirect("/login")),
    }
}

} // verus!
