//! What the check of a password can come to.

use crate::routes::error_chain::ErrorTrace;
use crate::routes::error_chain::ErrorTraceView;
use vstd::prelude::*;

verus! {

/// Why credentials were not accepted.
#[derive(Clone, Debug, PartialEq, Eq)]
pub enum AuthError {
    /// The credentials are not those of a user.
    InvalidCredentials(ErrorTrace),
    /// The check itself failed.
    UnexpectedError(ErrorTrace),
}

impl AuthError {
    /// The error as text: what it says, and the causes behind it. Invalid
    /// credentials say so and have what was found as their cause; a failure
    /// of the check speaks for itself.
    pub open spec fn trace_spec(&self) -> ErrorTraceView {
        match self {
            AuthError::InvalidCredentials(trace) => ErrorTraceView {
                message: "Invalid credentials."@,
                causes: seq![trace@.message] + trace@.causes,
            },
            AuthError::UnexpectedError(trace) => trace@,
        }
    }

    /// The error as text.
    pub fn into_trace(self) -> (trace: ErrorTrace)
        ensures
            trace@ == self.trace_spec(),
    {
        match self {
            AuthError::InvalidCredentials(trace) => trace.context("Invalid credentials."),
            AuthError::UnexpectedError(trace) => trace,
        }
    }
}

} // verus!
