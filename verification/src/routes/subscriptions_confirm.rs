//! Confirming a subscription.

use crate::http::STATUS_INTERNAL_SERVER_ERROR;
use crate::http::STATUS_OK;
use crate::http::STATUS_UNAUTHORIZED;
use crate::store::memory::PersistenceError;
use crate::store::memory::Store;
use crate::store::model::confirm_in;
use crate::store::model::lemma_confirm_unknown;
use crate::store::model::StoreView;
use crate::store::trace::Step;
use vstd::prelude::*;

verus! {

/// The query parameters of a confirmation link.
#[derive(Clone, Debug, PartialEq, Eq)]
pub struct Parameters {
    pub subscription_token: String,
}

/// What the lookup of a token found.
#[derive(Clone, Copy, Debug, PartialEq, Eq, Structural)]
pub enum TokenLookup {
    /// The lookup failed.
    Failed,
    /// No subscriber has this token.
    Unknown,
    /// The token is that of the subscriber with this id.
    Subscriber(u128),
}

/// What to do with a confirmation request, once its token was looked up.
#[derive(Clone, Copy, Debug, PartialEq, Eq, Structural)]
pub enum Confirmation {
    /// Answer with this status; nothing is to be written.
    Answer(u16),
    /// Mark the subscriber with this id as confirmed.
    Confirm(u128),
}

/// Decides what a confirmation request is owed, from what the lookup of its
/// token found: a server error when the lookup failed, a refusal when no
/// subscriber has the token, and otherwise the confirmation of the subscriber.
pub fn confirm(found: TokenLookup) -> (next: Confirmation)
    ensures
        next == (match found {
            TokenLookup::Failed => Confirmation::Answer(STATUS_INTERNAL_SERVER_ERROR),
            TokenLookup::Unknown => Confirmation::Answer(STATUS_UNAUTHORIZED),
            TokenLookup::Subscriber(id) => Confirmation::Confirm(id),
        }),
{
    match found {
        TokenLookup::Failed => Confirmation::Answer(STATUS_INTERNAL_SERVER_ERROR),
        TokenLookup::Unknown => Confirmation::Answer(STATUS_UNAUTHORIZED),
        TokenLookup::Subscriber(id) => Confirmation::Confirm(id),
    }
}

/// The status that answers a confirmation request after the subscriber was
/// to be marked as confirmed: success if that was done, a server error if not.
pub fn confirmed(marked: bool) -> (status: u16)
    ensures
        status == (if marked {
            STATUS_OK
        } else {
            STATUS_INTERNAL_SERVER_ERROR
        }),
{
    if marked {
        STATUS_OK
    } else {
        STATUS_INTERNAL_SERVER_ERROR
    }
}

/// Marks the subscriber with this id as confirmed.
///
/// Every subscription with the id is confirmed after the call and nothing
/// else has changed. Where no subscription has the id there is nothing to
/// mark: the store stays as it is, and that is no failure.
pub fn confirm_subscriber(store: &mut Store, subscriber_id: u128) -> (result: Result<
    (),
    PersistenceError,
>)
    requires
        old(store).wf(),
    ensures
        final(store).wf(),
        result is Ok,
        final(store)@ == old(store)@.apply(Step::Confirm { id: subscriber_id }),
        final(store)@ == (StoreView {
            subscribers: confirm_in(old(store)@.subscribers, subscriber_id),
            ..old(store)@
        }),
        !old(store)@.has_subscriber_id(subscriber_id) ==> final(store)@ == old(store)@,
{
    proof {
        lemma_confirm_unknown(old(store)@.subscribers, subscriber_id);
    }
    match store.confirm_subscription(subscriber_id) {
        Ok(()) => Ok(()),
        Err(_) => Ok(()),
    }
}

} // verus!
