//! What publishing does, step by step, apart from the store.
//!
//! Whoever drives the publishing performs each `PublishAction` against its
//! store, reports how it ended as a `PublishEvent`, and is told what to do
//! next. The same steps drive the store in memory and a database.

use crate::http::HttpResponse;
use crate::http::HttpResponseView;
use crate::idempotency::protocol::IdempotencyError;
use crate::routes::admin::newsletter::post::accepted;
use crate::routes::admin::newsletter::post::accepted_response;
use crate::routes::admin::newsletter::post::PublishError;
use crate::routes::admin::newsletter::post::PublishErrorView;
use crate::routes::error_chain::ErrorTrace;
use crate::routes::error_chain::ErrorTraceView;
use vstd::prelude::*;

verus! {

/// What is said when the key could not be claimed.
pub const CLAIM_FAILED: &'static str = "Failed to claim the idempotency key";

/// What is said when the issue could not be stored.
pub const STORE_FAILED: &'static str = "Failed to store newsletter issue details";

/// What is said when the deliveries could not be enqueued.
pub const ENQUEUE_FAILED: &'static str = "Failed to enqueue delivery tasks";

/// What is said when the response could not be saved.
pub const SAVE_FAILED: &'static str = "Failed to save the response";

/// What is said of a transaction that does not hold the key.
pub const NOT_CLAIMED: &'static str = "the transaction does not hold the key";

/// Where the publishing stands: the step that is under way.
#[derive(Clone, Copy, Debug, PartialEq, Eq, Structural)]
pub enum PublishState {
    /// The key is being claimed.
    Claiming,
    /// The issue is being stored.
    Storing,
    /// The deliveries are being enqueued.
    Enqueuing,
    /// The response is being saved.
    Saving,
    /// The answer was given.
    Finished,
}

/// What the claim of the key came to.
#[derive(Debug)]
pub enum Claimed {
    /// The key was free: a transaction is open and holds it.
    Started,
    /// The key was used before: this is the response that was saved.
    Replayed(HttpResponse),
}

/// How the last step ended.
#[derive(Debug)]
pub enum PublishEvent {
    /// The claim, or why the key could not be claimed.
    Claimed(Result<Claimed, IdempotencyError>),
    /// Whether the issue was stored, or why not.
    IssueStored(Result<(), ErrorTrace>),
    /// Whether the deliveries were enqueued, or why not.
    Enqueued(Result<(), ErrorTrace>),
    /// The response as it was saved and committed, or why it was not.
    ResponseSaved(Result<HttpResponse, IdempotencyError>),
}

/// What to do next.
#[derive(Debug)]
pub enum PublishAction {
    /// Claim the key, or find what was saved under it.
    Claim,
    /// Store the issue under the transaction.
    StoreIssue,
    /// Enqueue the deliveries of the issue under the transaction.
    Enqueue,
    /// Save this response under the key and commit.
    Save(HttpResponse),
    /// Roll the transaction back and fail with this error.
    RollBack(PublishError),
    /// Give this answer.
    Answer(HttpResponse),
    /// Fail with this error.
    Fail(PublishError),
}

/// The mathematical content of a `PublishEvent`.
pub enum PublishEventView {
    Started,
    Replayed(HttpResponseView),
    NotClaimed(IdempotencyError),
    IssueStored(Option<ErrorTraceView>),
    Enqueued(Option<ErrorTraceView>),
    Saved(HttpResponseView),
    NotSaved(IdempotencyError),
}

impl View for PublishEvent {
    type V = PublishEventView;

    open spec fn view(&self) -> PublishEventView {
        match self {
            PublishEvent::Claimed(Ok(Claimed::Started)) => PublishEventView::Started,
            PublishEvent::Claimed(Ok(Claimed::Replayed(response))) => PublishEventView::Replayed(
                response@,
            ),
            PublishEvent::Claimed(Err(e)) => PublishEventView::NotClaimed(*e),
            PublishEvent::IssueStored(Ok(())) => PublishEventView::IssueStored(None),
            PublishEvent::IssueStored(Err(cause)) => PublishEventView::IssueStored(Some(cause@)),
            PublishEvent::Enqueued(Ok(())) => PublishEventView::Enqueued(None),
            PublishEvent::Enqueued(Err(cause)) => PublishEventView::Enqueued(Some(cause@)),
            PublishEvent::ResponseSaved(Ok(response)) => PublishEventView::Saved(response@),
            PublishEvent::ResponseSaved(Err(e)) => PublishEventView::NotSaved(*e),
        }
    }
}

/// The mathematical content of a `PublishAction`.
pub enum PublishPlan {
    Claim,
    StoreIssue,
    Enqueue,
    Save(HttpResponseView),
    RollBack(PublishErrorView),
    Answer(HttpResponseView),
    Fail(PublishErrorView),
}

impl View for PublishAction {
    type V = PublishPlan;

    open spec fn view(&self) -> PublishPlan {
        match self {
            PublishAction::Claim => PublishPlan::Claim,
            PublishAction::StoreIssue => PublishPlan::StoreIssue,
            PublishAction::Enqueue => PublishPlan::Enqueue,
            PublishAction::Save(response) => PublishPlan::Save(response@),
            PublishAction::RollBack(e) => PublishPlan::RollBack(e@),
            PublishAction::Answer(response) => PublishPlan::Answer(response@),
            PublishAction::Fail(e) => PublishPlan::Fail(e@),
        }
    }
}

/// An error without a known cause, as text.
pub open spec fn plain(message: Seq<char>) -> ErrorTraceView {
    ErrorTraceView { message, causes: Seq::empty() }
}

/// The error that says at which step the publishing failed, with what went
/// wrong underneath as its chain of causes.
pub open spec fn failure(step: Seq<char>, cause: ErrorTraceView) -> PublishErrorView {
    PublishErrorView::UnexpectedError(
        ErrorTraceView { message: step, causes: seq![cause.message] + cause.causes },
    )
}

/// The error that the coordinator's refusal makes of the publishing: a key
/// that is held makes the request wait too long; everything else is a
/// failure of the step.
pub open spec fn refusal(step: Seq<char>, e: IdempotencyError) -> PublishErrorView {
    match e {
        IdempotencyError::ClaimConflictTimeout => PublishErrorView::ClaimConflictTimeout,
        IdempotencyError::NotClaimed => failure(step, plain(NOT_CLAIMED@)),
        IdempotencyError::Persistence(fault) => failure(step, plain(fault.message_spec())),
    }
}

/// What the publishing does next, given the step that was under way and how
/// it ended. `None` where the event is not one that the step can end in.
pub open spec fn publish_next(
    flash_cookie: Seq<char>,
    state: PublishState,
    event: PublishEventView,
) -> Option<(PublishState, PublishPlan)> {
    match (state, event) {
        (PublishState::Claiming, PublishEventView::Started) => Some(
            (PublishState::Storing, PublishPlan::StoreIssue),
        ),
        (PublishState::Claiming, PublishEventView::Replayed(response)) => Some(
            (PublishState::Finished, PublishPlan::Answer(response)),
        ),
        (PublishState::Claiming, PublishEventView::NotClaimed(e)) => Some(
            (PublishState::Finished, PublishPlan::Fail(refusal(CLAIM_FAILED@, e))),
        ),
        (PublishState::Storing, PublishEventView::IssueStored(None)) => Some(
            (PublishState::Enqueuing, PublishPlan::Enqueue),
        ),
        (PublishState::Storing, PublishEventView::IssueStored(Some(cause))) => Some(
            (PublishState::Finished, PublishPlan::RollBack(failure(STORE_FAILED@, cause))),
        ),
        (PublishState::Enqueuing, PublishEventView::Enqueued(None)) => Some(
            (PublishState::Saving, PublishPlan::Save(accepted(flash_cookie))),
        ),
        (PublishState::Enqueuing, PublishEventView::Enqueued(Some(cause))) => Some(
            (PublishState::Finished, PublishPlan::RollBack(failure(ENQUEUE_FAILED@, cause))),
        ),
        (PublishState::Saving, PublishEventView::Saved(response)) => Some(
            (PublishState::Finished, PublishPlan::Answer(response)),
        ),
        (PublishState::Saving, PublishEventView::NotSaved(e)) => Some(
            (PublishState::Finished, PublishPlan::Fail(refusal(SAVE_FAILED@, e))),
        ),
        _ => None,
    }
}

/// How many more steps the publishing can take, at most.
pub open spec fn steps_to_go(state: PublishState) -> nat {
    match state {
        PublishState::Claiming => 4,
        PublishState::Storing => 3,
        PublishState::Enqueuing => 2,
        PublishState::Saving => 1,
        PublishState::Finished => 0,
    }
}

fn failed(step: &str, cause: ErrorTrace) -> (error: PublishError)
    ensures
        error@ == failure(step@, cause@),
{
    PublishError::UnexpectedError(cause.context(step))
}

fn refused(step: &str, e: IdempotencyError) -> (error: PublishError)
    ensures
        error@ == refusal(step@, e),
{
    match e {
        IdempotencyError::ClaimConflictTimeout => PublishError::ClaimConflictTimeout,
        IdempotencyError::NotClaimed => failed(step, ErrorTrace::new(NOT_CLAIMED)),
        IdempotencyError::Persistence(fault) => failed(step, ErrorTrace::new(fault.message())),
    }
}

/// The first step of the publishing: claim the key.
pub fn publish_start() -> (begin: (PublishState, PublishAction))
    ensures
        begin.0 == PublishState::Claiming,
        begin.1@ == PublishPlan::Claim,
{
    (PublishState::Claiming, PublishAction::Claim)
}

/// Takes how the last step of the publishing ended and says what to do next.
///
/// A key that was used before is answered with what was saved under it. A
/// free key leads through the storing of the issue and the enqueuing of its
/// deliveries to the saving of the response, which carries the flash cookie
/// given. A step that fails under the open transaction has the transaction
/// rolled back. An event that the step cannot end in is not taken.
pub fn publish_step(state: PublishState, event: PublishEvent, flash_cookie: &str) -> (next: Option<
    (PublishState, PublishAction),
>)
    ensures
        match next {
            Some((then, action)) => {
                &&& publish_next(flash_cookie@, state, event@) == Some((then, action@))
                &&& steps_to_go(then) < steps_to_go(state)
            },
            None => publish_next(flash_cookie@, state, event@) is None,
        },
{
    match (state, event) {
        (PublishState::Claiming, PublishEvent::Claimed(Ok(Claimed::Started))) => Some(
            (PublishState::Storing, PublishAction::StoreIssue),
        ),
        (PublishState::Claiming, PublishEvent::Claimed(Ok(Claimed::Replayed(response)))) => Some(
            (PublishState::Finished, PublishAction::Answer(response)),
        ),
        (PublishState::Claiming, PublishEvent::Claimed(Err(e))) => Some(
            (PublishState::Finished, PublishAction::Fail(refused(CLAIM_FAILED, e))),
        ),
        (PublishState::Storing, PublishEvent::IssueStored(Ok(()))) => Some(
            (PublishState::Enqueuing, PublishAction::Enqueue),
        ),
        (PublishState::Storing, PublishEvent::IssueStored(Err(cause))) => Some(
            (PublishState::Finished, PublishAction::RollBack(failed(STORE_FAILED, cause))),
        ),
        (PublishState::Enqueuing, PublishEvent::Enqueued(Ok(()))) => Some(
            (PublishState::Saving, PublishAction::Save(accepted_response(flash_cookie))),
        ),
        (PublishState::Enqueuing, PublishEvent::Enqueued(Err(cause))) => Some(
            (PublishState::Finished, PublishAction::RollBack(failed(ENQUEUE_FAILED, cause))),
        ),
        (PublishState::Saving, PublishEvent::ResponseSaved(Ok(response))) => Some(
            (PublishState::Finished, PublishAction::Answer(response)),
        ),
        (PublishState::Saving, PublishEvent::ResponseSaved(Err(e))) => Some(
            (PublishState::Finished, PublishAction::Fail(refused(SAVE_FAILED, e))),
        ),
        _ => None,
    }
}

} // verus!
