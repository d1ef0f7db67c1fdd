//! The outcome of a login attempt.

use crate::authentication::middleware::UserId;
use crate::authentication::password::AuthError;
use crate::http::redirect_to;
use crate::http::redirect_with_cookie;
use crate::http::HttpResponse;
use crate::http::HttpResponseView;
use crate::routes::error_chain::chain_report;
use crate::routes::error_chain::error_chain_fmt;
use crate::routes::error_chain::ErrorTrace;
use crate::routes::error_chain::ErrorTraceView;
use crate::routes::flash::flash_cookie;
use crate::routes::flash::CookieKey;
use vstd::prelude::*;
use vstd::string::*;

verus! {

/// Why a login failed.
#[derive(Clone, Debug, PartialEq, Eq)]
pub enum LoginError {
    /// The credentials were not those of a user.
    AuthError(ErrorTrace),
    /// Something failed underneath.
    UnexpectedError(ErrorTrace),
}

impl LoginError {
    /// What the error says of itself.
    pub open spec fn message_spec(&self) -> Seq<char> {
        match self {
            LoginError::AuthError(_) => "Authentication failed"@,
            LoginError::UnexpectedError(_) => "Something went wrong"@,
        }
    }

    /// What the causes behind the error say, nearest first.
    pub open spec fn sources_spec(&self) -> Seq<Seq<char>> {
        match self {
            LoginError::AuthError(trace) => seq![trace@.message] + trace@.causes,
            LoginError::UnexpectedError(trace) => seq![trace@.message] + trace@.causes,
        }
    }

    /// What the error says of itself. The login form shows this text.
    pub fn message(&self) -> (message: String)
        ensures
            message@ == self.message_spec(),
            message@ == self@.message(),
    {
        match self {
            LoginError::AuthError(_) => String::from_str("Authentication failed"),
            LoginError::UnexpectedError(_) => String::from_str("Something went wrong"),
        }
    }

    /// The report for the log: the message, then the chain of causes.
    pub fn report(&self) -> (report: String)
        ensures
            report@ == chain_report(self.message_spec(), self.sources_spec()),
    {
        match self {
            LoginError::AuthError(trace) => {
                let chain = trace.chain();
                error_chain_fmt("Authentication failed", &chain)
            },
            LoginError::UnexpectedError(trace) => {
                let chain = trace.chain();
                error_chain_fmt("Something went wrong", &chain)
            },
        }
    }

    /// The response that the client gets: back to the login form, whatever failed.
    pub fn into_response(self) -> (response: HttpResponse)
        ensures
            response@ == redirect_to("/login"@),
    {
        HttpResponse::redirect("/login")
    }
}

/// The mathematical content of a `LoginError`.
pub enum LoginErrorView {
    AuthError(ErrorTraceView),
    UnexpectedError(ErrorTraceView),
}

impl View for LoginError {
    type V = LoginErrorView;

    open spec fn view(&self) -> LoginErrorView {
        match self {
            LoginError::AuthError(trace) => LoginErrorView::AuthError(trace@),
            LoginError::UnexpectedError(trace) => LoginErrorView::UnexpectedError(trace@),
        }
    }
}

impl LoginErrorView {
    /// What the error says of itself.
    pub open spec fn message(self) -> Seq<char> {
        match self {
            LoginErrorView::AuthError(_) => "Authentication failed"@,
            LoginErrorView::UnexpectedError(_) => "Something went wrong"@,
        }
    }
}

/// The form that asks for a login.
#[derive(Clone, Debug, PartialEq, Eq)]
pub struct FormData {
    pub username: String,
    pub password: String,
}

/// Where a login stands.
#[derive(Clone, Copy, Debug, PartialEq, Eq, Structural)]
pub enum LoginState {
    /// The credentials are being checked.
    Validating,
    /// The user is being written into the session.
    SavingSession,
    /// The answer was given.
    Finished,
}

/// What the last step of a login came to.
#[derive(Debug, PartialEq, Eq)]
pub enum LoginEvent {
    /// The user that the credentials are those of, or why they were not accepted.
    Validated(Result<UserId, AuthError>),
    /// Whether the user was written into the session.
    SessionSaved(Result<(), ErrorTrace>),
}

/// What to do next.
#[derive(Debug)]
pub enum LoginAction {
    /// Write this user into the session.
    SaveSession(UserId),
    /// Give this answer.
    Answer(HttpResponse),
    /// Give this answer, and report this error.
    Reject(HttpResponse, LoginError),
}

/// The mathematical content of a `LoginAction`.
pub enum LoginPlan {
    SaveSession(UserId),
    Answer(HttpResponseView),
    Reject(HttpResponseView, LoginErrorView),
}

impl View for LoginAction {
    type V = LoginPlan;

    open spec fn view(&self) -> LoginPlan {
        match self {
            LoginAction::SaveSession(user_id) => LoginPlan::SaveSession(*user_id),
            LoginAction::Answer(response) => LoginPlan::Answer(response@),
            LoginAction::Reject(response, error) => LoginPlan::Reject(response@, error@),
        }
    }
}

/// The answer to a login that failed: back to the login form, with what the
/// error says of itself as the message to show there.
pub open spec fn rejection(key: Seq<u8>, error: LoginErrorView) -> LoginPlan {
    LoginPlan::Reject(redirect_with_cookie("/login"@, flash_cookie(key, error.message())), error)
}

/// The error that a refusal of the credentials makes of a login.
pub open spec fn login_error(e: AuthError) -> LoginErrorView {
    match e {
        AuthError::InvalidCredentials(_) => LoginErrorView::AuthError(e.trace_spec()),
        AuthError::UnexpectedError(_) => LoginErrorView::UnexpectedError(e.trace_spec()),
    }
}

/// What a login does next, given where it stands and what the last step
/// came to. `None` where the event is not one that the state waits for.
pub open spec fn login_step(key: Seq<u8>, state: LoginState, event: LoginEvent) -> Option<
    (LoginState, LoginPlan),
> {
    match (state, event) {
        (LoginState::Validating, LoginEvent::Validated(Ok(user_id))) => Some(
            (LoginState::SavingSession, LoginPlan::SaveSession(user_id)),
        ),
        (LoginState::Validating, LoginEvent::Validated(Err(e))) => Some(
            (LoginState::Finished, rejection(key, login_error(e))),
        ),
        (LoginState::SavingSession, LoginEvent::SessionSaved(Ok(()))) => Some(
            (LoginState::Finished, LoginPlan::Answer(redirect_to("/admin/dashboard"@))),
        ),
        (LoginState::SavingSession, LoginEvent::SessionSaved(Err(trace))) => Some(
            (LoginState::Finished, rejection(key, LoginErrorView::UnexpectedError(trace@))),
        ),
        _ => None,
    }
}

/// Sends a failed login back to the login form, with what the error says of
/// itself as the message to show there, and hands the error on.
pub fn login_redirect_on_err(e: LoginError, cookie_key: &CookieKey) -> (action: LoginAction)
    ensures
        action@ == rejection(cookie_key@, e@),
{
    let message = e.message();
    let response = cookie_key.redirect_with_flash("/login", message.as_str());
    LoginAction::Reject(response, e)
}

/// Takes what the last step of a login came to and says what to do next.
///
/// Credentials that are those of a user lead to the session, and the session
/// to the dashboard. Credentials that are not, a check that failed, and a
/// session that could not be written all lead back to the login form. An
/// event that the state does not wait for is not taken.
pub fn login(state: LoginState, event: LoginEvent, cookie_key: &CookieKey) -> (next: Option<
    (LoginState, LoginAction),
>)
    ensures
        match next {
            Some((then, action)) => login_step(cookie_key@, state, event) == Some((then, action@)),
            None => login_step(cookie_key@, state, event) is None,
        },
{
    match (state, event) {
        (LoginState::Validating, LoginEvent::Validated(Ok(user_id))) => Some(
            (LoginState::SavingSession, LoginAction::SaveSession(user_id)),
        ),
        (LoginState::Validating, LoginEvent::Validated(Err(e))) => {
            let error = match e {
                AuthError::InvalidCredentials(_) => LoginError::AuthError(e.into_trace()),
                AuthError::UnexpectedError(_) => LoginError::UnexpectedError(e.into_trace()),
            };
            Some((LoginState::Finished, login_redirect_on_err(error, cookie_key)))
        },
        (LoginState::SavingSession, LoginEvent::SessionSaved(Ok(()))) => Some(
            (LoginState::Finished, LoginAction::Answer(HttpResponse::redirect("/admin/dashboard"))),
        ),
        (LoginState::SavingSession, LoginEvent::SessionSaved(Err(trace))) => Some(
            (
                LoginState::Finished,
                login_redirect_on_err(LoginError::UnexpectedError(trace), cookie_key),
            ),
        ),
        _ => None,
    }
}

} // verus!
