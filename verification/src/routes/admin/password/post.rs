//! A change of password, step by step.
//!
//! The steps that need the store or the password hasher are taken by
//! whoever drives the change; what each step's outcome leads to is decided
//! here.

use crate::authentication::password::AuthError;
use crate::http::redirect_with_cookie;
use crate::http::HttpResponse;
use crate::http::HttpResponseView;
use crate::routes::admin::dashboard::AdminDashboardError;
use crate::routes::error_chain::ErrorTrace;
use crate::routes::flash::flash_cookie;
use crate::routes::flash::CookieKey;
use vstd::prelude::*;

verus! {

/// The form that asks for a change of password.
#[derive(Clone, Debug, PartialEq, Eq)]
pub struct FormData {
    pub current_password: String,
    pub new_password: String,
    pub new_password_check: String,
}

/// What is said when the new password was not typed the same way twice.
pub const MISMATCH_MESSAGE: &'static str =
    "You entered two different new passwords - the field values must match.";

/// What is said when the current password was wrong.
pub const INCORRECT_MESSAGE: &'static str = "The current password is incorrect.";

/// What is said when the password was changed.
pub const CHANGED_MESSAGE: &'static str = "Your password has been changed.";

/// Where a change of password stands.
#[derive(Clone, Copy, Debug, PartialEq, Eq, Structural)]
pub enum PasswordChange {
    /// The form has come in; nothing was looked at yet.
    Submitted,
    /// The name of the user is being fetched.
    FetchingUsername,
    /// The current password is being checked.
    Validating,
    /// The new password is being stored.
    Changing,
    /// The answer was given.
    Finished,
}

/// What the last step came to.
#[derive(Debug, PartialEq, Eq)]
pub enum PasswordEvent {
    /// The form, read: whether the new password was typed the same way twice.
    Read { passwords_match: bool },
    /// The name of the user, or why it could not be fetched.
    Username(Result<String, ErrorTrace>),
    /// Whether the current password is that of the user.
    Validated(Result<(), AuthError>),
    /// Whether the new password was stored.
    Changed(Result<(), ErrorTrace>),
}

/// What to do next.
#[derive(Debug)]
pub enum PasswordAction {
    /// Fetch the name of the user.
    FetchUsername,
    /// Check the current password against that of the user with this name.
    Validate { username: String },
    /// Store the new password.
    Change,
    /// Give this answer.
    Answer(HttpResponse),
    /// Fail with this error.
    Fail(AdminDashboardError),
}

/// What a change of password does next, given where it stands and what the
/// last step came to. `None` where the event is not one that the state waits for.
pub open spec fn password_step(
    key: Seq<u8>,
    state: PasswordChange,
    event: PasswordEvent,
) -> Option<(PasswordChange, PasswordPlan)> {
    match (state, event) {
        (PasswordChange::Submitted, PasswordEvent::Read { passwords_match }) => Some(
            if passwords_match {
                (PasswordChange::FetchingUsername, PasswordPlan::FetchUsername)
            } else {
                (PasswordChange::Finished, PasswordPlan::Answer(back_with(key, MISMATCH_MESSAGE@)))
            },
        ),
        (PasswordChange::FetchingUsername, PasswordEvent::Username(Ok(username))) => Some(
            (PasswordChange::Validating, PasswordPlan::Validate { username: username@ }),
        ),
        (PasswordChange::FetchingUsername, PasswordEvent::Username(Err(trace))) => Some(
            (PasswordChange::Finished, PasswordPlan::Fail(trace)),
        ),
        (PasswordChange::Validating, PasswordEvent::Validated(Ok(()))) => Some(
            (PasswordChange::Changing, PasswordPlan::Change),
        ),
        (
            PasswordChange::Validating,
            PasswordEvent::Validated(Err(AuthError::InvalidCredentials(_))),
        ) => Some(
            (PasswordChange::Finished, PasswordPlan::Answer(back_with(key, INCORRECT_MESSAGE@))),
        ),
        (
            PasswordChange::Validating,
            PasswordEvent::Validated(Err(AuthError::UnexpectedError(trace))),
        ) => Some((PasswordChange::Finished, PasswordPlan::Fail(trace))),
        (PasswordChange::Changing, PasswordEvent::Changed(Ok(()))) => Some(
            (PasswordChange::Finished, PasswordPlan::Answer(back_with(key, CHANGED_MESSAGE@))),
        ),
        (PasswordChange::Changing, PasswordEvent::Changed(Err(trace))) => Some(
            (PasswordChange::Finished, PasswordPlan::Fail(trace)),
        ),
        _ => None,
    }
}

/// The mathematical content of a `PasswordAction`.
pub enum PasswordPlan {
    FetchUsername,
    Validate { username: Seq<char> },
    Change,
    Answer(HttpResponseView),
    Fail(ErrorTrace),
}

impl View for PasswordAction {
    type V = PasswordPlan;

    open spec fn view(&self) -> PasswordPlan {
        match self {
            PasswordAction::FetchUsername => PasswordPlan::FetchUsername,
            PasswordAction::Validate { username } => PasswordPlan::Validate {
                username: username@,
            },
            PasswordAction::Change => PasswordPlan::Change,
            PasswordAction::Answer(response) => PasswordPlan::Answer(response@),
            PasswordAction::Fail(AdminDashboardError::UnexpectedError(trace)) => PasswordPlan::Fail(
                *trace,
            ),
        }
    }
}

/// The answer that sends the client back to the form with a message.
pub open spec fn back_with(key: Seq<u8>, message: Seq<char>) -> HttpResponseView {
    redirect_with_cookie("/admin/password"@, flash_cookie(key, message))
}

/// Whether the new password was typed the same way twice.
pub fn passwords_match(form: &FormData) -> (same: bool)
    ensures
        same == (form.new_password@ == form.new_password_check@),
{
    form.new_password == form.new_password_check
}

/// Takes what the last step of a change of password came to and says what to
/// do next.
///
/// Two different new passwords, or a wrong current password, send the client
/// back to the form with a message, and so does the change when it is done.
/// A failure underneath fails the request. An event that the state does not
/// wait for is not taken: the change stays where it stands.
pub fn change_password(state: PasswordChange, event: PasswordEvent, cookie_key: &CookieKey) -> (
    next: Option<(PasswordChange, PasswordAction)>
)
    ensures
        match next {
            Some((then, action)) => password_step(cookie_key@, state, event) == Some(
                (then, action@),
            ),
            None => password_step(cookie_key@, state, event) is None,
        },
{
    match (state, event) {
        (PasswordChange::Submitted, PasswordEvent::Read { passwords_match }) => {
            if passwords_match {
                Some((PasswordChange::FetchingUsername, PasswordAction::FetchUsername))
            } else {
                Some(
                    (
                        PasswordChange::Finished,
                        PasswordAction::Answer(
                            cookie_key.redirect_with_flash("/admin/password", MISMATCH_MESSAGE),
                        ),
                    ),
                )
            }
        },
        (PasswordChange::FetchingUsername, PasswordEvent::Username(Ok(username))) => Some(
            (PasswordChange::Validating, PasswordAction::Validate { username }),
        ),
        (PasswordChange::FetchingUsername, PasswordEvent::Username(Err(trace))) => Some(
            (
                PasswordChange::Finished,
                PasswordAction::Fail(AdminDashboardError::UnexpectedError(trace)),
            ),
        ),
        (PasswordChange::Validating, PasswordEvent::Validated(Ok(()))) => Some(
            (PasswordChange::Changing, PasswordAction::Change),
        ),
        (
            PasswordChange::Validating,
            PasswordEvent::Validated(Err(AuthError::InvalidCredentials(_))),
        ) => Some(
            (
                PasswordChange::Finished,
                PasswordAction::Answer(
                    cookie_key.redirect_with_flash("/admin/password", INCORRECT_MESSAGE),
                ),
            ),
        ),
        (
            PasswordChange::Validating,
            PasswordEvent::Validated(Err(AuthError::UnexpectedError(trace))),
        ) => Some(
            (
                PasswordChange::Finished,
                PasswordAction::Fail(AdminDashboardError::UnexpectedError(trace)),
            ),
        ),
        (PasswordChange::Changing, PasswordEvent::Changed(Ok(()))) => Some(
            (
                PasswordChange::Finished,
                PasswordAction::Answer(
                    cookie_key.redirect_with_flash("/admin/password", CHANGED_MESSAGE),
                ),
            ),
        ),
        (PasswordChange::Changing, PasswordEvent::Changed(Err(trace))) => Some(
            (
                PasswordChange::Finished,
                PasswordAction::Fail(AdminDashboardError::UnexpectedError(trace)),
            ),
        ),
        _ => None,
    }
}

} // verus!
