//! The coordinator: it claims a key for the caller, or replays what was
//! saved under it, and it saves the response that ends a claimed action.

use crate::authentication::middleware::UserId;
use crate::http::HttpResponse;
use crate::http::HttpResponseView;
use crate::idempotency::key::IdempotencyKey;
use crate::idempotency::protocol::is_final;
use crate::idempotency::protocol::lemma_protocol_terminates;
use crate::idempotency::protocol::save_advance;
use crate::idempotency::protocol::save_start;
use crate::idempotency::protocol::saves_left;
use crate::idempotency::protocol::steps_left;
use crate::idempotency::protocol::ClaimProtocol;
use crate::idempotency::protocol::Directive;
use crate::idempotency::protocol::DirectiveView;
use crate::idempotency::protocol::IdempotencyError;
use crate::idempotency::protocol::Observation;
use crate::idempotency::protocol::SaveDirective;
use crate::idempotency::protocol::SaveDirectiveView;
use crate::idempotency::protocol::SaveObservation;
use crate::idempotency::protocol::SaveState;
use crate::idempotency::protocol::MAX_CLAIM_RETRIES;
use crate::idempotency::snapshot::decode_spec;
use crate::idempotency::snapshot::encodable;
use crate::idempotency::snapshot::encode_spec;
use crate::idempotency::snapshot::lemma_decode_inverts_encode;
use crate::idempotency::snapshot::CodecError;
use crate::idempotency::snapshot::ResponseSnapshot;
use crate::store::memory::claim_key;
use crate::store::memory::LedgerEntry;
use crate::store::memory::PersistenceError;
use crate::store::memory::Store;
use crate::store::memory::Transaction;
use crate::store::model::lemma_ledger_index_is_unique;
use crate::store::model::LedgerState;
use crate::store::model::StoreView;
use crate::store::trace::Step;
use vstd::prelude::*;

verus! {

/// What the caller of `try_processing` is to do.
#[derive(Debug)]
pub enum NextAction {
    /// The caller alone owns the action: it does its writes under this
    /// transaction and ends with `save_response`, or rolls back.
    StartProcessing(Transaction),
    /// The action was completed before: this is its response, as saved.
    ReturnSavedResponse(HttpResponse),
}

/// What `try_processing` returns and how it leaves the store, given what the
/// ledger held for the key.
pub open spec fn claim_or_replay(
    before: StoreView,
    caller: UserId,
    key: IdempotencyKey,
    now: i64,
    result: Result<NextAction, IdempotencyError>,
    after: StoreView,
) -> bool {
    match before.ledger_state(claim_key(caller, key)) {
        LedgerState::Absent => if before.next_transaction < u64::MAX {
            &&& result matches Ok(NextAction::StartProcessing(transaction))
            &&& transaction@ == before.next_transaction
            &&& after == before.claim(claim_key(caller, key), now)
        } else {
            &&& result matches Err(e)
            &&& e == IdempotencyError::Persistence(PersistenceError::TransactionsExhausted)
            &&& after == before
        },
        LedgerState::InFlight { transaction } => {
            &&& result matches Err(e)
            &&& e == IdempotencyError::ClaimConflictTimeout
            &&& after == before
        },
        LedgerState::Completed { snapshot } => {
            &&& result matches Ok(NextAction::ReturnSavedResponse(response))
            &&& decode_spec(snapshot) == Ok::<HttpResponseView, CodecError>(response@)
            &&& after == before
        },
    }
}

/// Claims the key for the caller, or replays what was saved under it.
///
/// - No row for the key: a transaction is opened and the row inserted in it,
///   uncommitted. The caller gets the transaction and owns the action.
/// - A committed row: its snapshot is decoded and returned as it was saved.
///   The store is not touched.
/// - An uncommitted row of another transaction: the call would have to wait
///   for that transaction, and this store cannot wait. It fails with
///   `ClaimConflictTimeout` and changes nothing.
pub fn try_processing(
    store: &mut Store,
    idempotency_key: &IdempotencyKey,
    user_id: UserId,
    now: i64,
) -> (result: Result<NextAction, IdempotencyError>)
    requires
        old(store).wf(),
    ensures
        final(store).wf(),
        claim_or_replay(old(store)@, user_id, *idempotency_key, now, result, final(store)@),
        final(store)@ == old(store)@.apply(
            Step::TryProcessing { claim: claim_key(user_id, *idempotency_key), now },
        ),
{
    let ghost before = store@;
    let ghost claim = claim_key(user_id, *idempotency_key);
    let (mut state, mut directive) = ClaimProtocol::start(MAX_CLAIM_RETRIES);
    let mut claimed: Option<Transaction> = None;
    loop
        invariant
            before == old(store)@,
            before.wf(),
            store.wf(),
            claim == claim_key(user_id, *idempotency_key),
            is_final(directive@) <==> state == ClaimProtocol::Finished,
            match directive@ {
                DirectiveView::InsertClaim => {
                    &&& state is Claiming
                    &&& claimed is None
                    &&& store@ == before
                },
                DirectiveView::LookUp => {
                    &&& state is Looking
                    &&& claimed is None
                    &&& store@ == before
                    &&& before.ledger_state(claim) is Completed
                },
                DirectiveView::StartProcessing => {
                    &&& claimed matches Some(transaction)
                    &&& transaction@ == before.next_transaction
                    &&& before.ledger_state(claim) == LedgerState::Absent
                    &&& before.next_transaction < u64::MAX
                    &&& store@ == before.claim(claim, now)
                },
                DirectiveView::ReturnSavedResponse(response) => {
                    &&& store@ == before
                    &&& before.ledger_state(claim) matches LedgerState::Completed { snapshot }
                    &&& decode_spec(snapshot) == Ok::<HttpResponseView, CodecError>(response)
                },
                DirectiveView::Fail(e) => {
                    &&& store@ == before
                    &&& match before.ledger_state(claim) {
                        LedgerState::Absent => before.next_transaction >= u64::MAX && e
                            == IdempotencyError::Persistence(
                            PersistenceError::TransactionsExhausted,
                        ),
                        LedgerState::InFlight { transaction } => e
                            == IdempotencyError::ClaimConflictTimeout,
                        LedgerState::Completed { snapshot } => false,
                    }
                },
            },
        decreases steps_left(state),
    {
        let observation = match directive {
            Directive::StartProcessing => {
                return Ok(NextAction::StartProcessing(claimed.unwrap()));
            },
            Directive::ReturnSavedResponse(response) => {
                return Ok(NextAction::ReturnSavedResponse(response));
            },
            Directive::Fail(e) => {
                return Err(e);
            },
            Directive::InsertClaim => match store.ledger_entry(user_id, idempotency_key) {
                LedgerEntry::Completed(_) => Observation::Inserted { rows: 0 },
                LedgerEntry::InFlight(_) => Observation::WaitExpired,
                LedgerEntry::Absent => {
                    if store.has_transaction_left() {
                        claimed = Some(store.open_claim(user_id, idempotency_key, now));
                        Observation::Inserted { rows: 1 }
                    } else {
                        Observation::Fault(PersistenceError::TransactionsExhausted)
                    }
                },
            },
            Directive::LookUp => match store.ledger_entry(user_id, idempotency_key) {
                LedgerEntry::Completed(snapshot) => Observation::Saved(snapshot),
                LedgerEntry::InFlight(_) => Observation::Unfinished,
                LedgerEntry::Absent => Observation::Missing,
            },
        };
        proof {
            lemma_protocol_terminates(state, observation@);
            if before.ledger_state(claim) is Completed {
                lemma_ledger_index_is_unique(before, before.ledger_index(claim));
            }
        }
        let step = state.advance(observation);
        state = step.0;
        directive = step.1;
    }
}

/// Saves the response that ends a claimed action, and commits.
///
/// When the response can be stored and the transaction holds the row for
/// the key, the snapshot of the response is attached to the row, the
/// transaction is committed with everything staged under it, and the response
/// comes back as it went in. Otherwise nothing is saved: the transaction is
/// rolled back and the call fails, with `UnstorableResponse` when the
/// response cannot be stored, and else with `NotClaimed`.
pub fn save_response(
    store: &mut Store,
    transaction: Transaction,
    idempotency_key: &IdempotencyKey,
    user_id: UserId,
    response: HttpResponse,
) -> (result: Result<HttpResponse, IdempotencyError>)
    requires
        old(store).wf(),
    ensures
        final(store).wf(),
        final(store)@ == old(store)@.apply(
            Step::SaveResponse {
                transaction: transaction@,
                claim: claim_key(user_id, *idempotency_key),
                response: response@,
            },
        ),
        match result {
            Ok(saved) => {
                &&& saved == response
                &&& old(store)@.holds(transaction@, claim_key(user_id, *idempotency_key))
                &&& encodable(response@)
                &&& final(store)@ == old(store)@.commit(transaction@, encode_spec(response@))
            },
            Err(e) => {
                &&& final(store)@ == old(store)@.rollback(transaction@)
                &&& if !encodable(response@) {
                    e == IdempotencyError::Persistence(PersistenceError::UnstorableResponse)
                } else {
                    !old(store)@.holds(transaction@, claim_key(user_id, *idempotency_key)) && e
                        == IdempotencyError::NotClaimed
                }
            },
        },
{
    let ghost before = store@;
    let ghost number = transaction@;
    let ghost claim = claim_key(user_id, *idempotency_key);
    let begin = save_start(&response);
    let mut state = begin.0;
    let mut directive = begin.1;
    let mut open: Option<Transaction> = Some(transaction);
    let mut attached: Option<ResponseSnapshot> = None;
    loop
        invariant
            before == old(store)@,
            before.wf(),
            store.wf(),
            number == transaction@,
            claim == claim_key(user_id, *idempotency_key),
            match directive@ {
                SaveDirectiveView::Update(snapshot) => {
                    &&& state == SaveState::Updating
                    &&& encodable(response@)
                    &&& snapshot == encode_spec(response@)
                    &&& open matches Some(held) && held@ == number
                    &&& attached is None
                    &&& store@ == before
                },
                SaveDirectiveView::Commit => {
                    &&& state == SaveState::Committing
                    &&& encodable(response@)
                    &&& before.holds(number, claim)
                    &&& open matches Some(held) && held@ == number
                    &&& attached matches Some(snapshot) && snapshot@ == encode_spec(response@)
                    &&& store@ == before
                },
                SaveDirectiveView::RollBack(e) => {
                    &&& open matches Some(held) && held@ == number
                    &&& store@ == before
                    &&& if !encodable(response@) {
                        e == IdempotencyError::Persistence(PersistenceError::UnstorableResponse)
                    } else {
                        !before.holds(number, claim) && e == IdempotencyError::NotClaimed
                    }
                },
                SaveDirectiveView::Return => {
                    &&& encodable(response@)
                    &&& before.holds(number, claim)
                    &&& store@ == before.commit(number, encode_spec(response@))
                },
                SaveDirectiveView::Fail(e) => false,
            },
        decreases saves_left(state),
    {
        let observation = match directive {
            SaveDirective::Return => {
                return Ok(response);
            },
            SaveDirective::Fail(e) => {
                return Err(e);
            },
            SaveDirective::RollBack(e) => {
                match open {
                    Some(held) => {
                        store.rollback(held);
                    },
                    None => {},
                }
                return Err(e);
            },
            SaveDirective::Update(snapshot) => {
                let rows: u64 = match &open {
                    Some(held) => if store.holds_claim(held, user_id, idempotency_key) {
                        1
                    } else {
                        0
                    },
                    None => 0,
                };
                attached = Some(snapshot);
                SaveObservation::Updated { rows }
            },
            SaveDirective::Commit => {
                let held = open;
                let snapshot = attached;
                open = None;
                attached = None;
                match (held, snapshot) {
                    (Some(held), Some(snapshot)) => {
                        proof {
                            lemma_decode_inverts_encode(response@);
                        }
                        store.commit(held, snapshot);
                        SaveObservation::Committed
                    },
                    _ => SaveObservation::Fault(PersistenceError::UnexpectedReply),
                }
            },
        };
        let step = save_advance(state, observation);
        state = step.0;
        directive = step.1;
    }
}

} // verus!
