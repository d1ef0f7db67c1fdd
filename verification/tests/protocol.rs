use zero2prod::http::HttpResponse;
use zero2prod::idempotency::protocol::save_advance;
use zero2prod::idempotency::protocol::save_start;
use zero2prod::idempotency::protocol::ClaimProtocol;
use zero2prod::idempotency::protocol::Directive;
use zero2prod::idempotency::protocol::IdempotencyError;
use zero2prod::idempotency::protocol::Observation;
use zero2prod::idempotency::protocol::SaveDirective;
use zero2prod::idempotency::protocol::SaveObservation;
use zero2prod::idempotency::protocol::SaveState;
use zero2prod::idempotency::protocol::MAX_CLAIM_RETRIES;
use zero2prod::idempotency::snapshot::encode;
use zero2prod::idempotency::snapshot::ResponseSnapshot;
use zero2prod::store::memory::PersistenceError;

fn saved() -> (HttpResponse, ResponseSnapshot) {
    let response = HttpResponse { status: 303, headers: vec![], body: b"done".to_vec() };
    let snapshot = encode(&response).unwrap();
    (response, snapshot)
}

#[test]
fn the_protocol_starts_by_inserting_the_claim() {
    let (state, directive) = ClaimProtocol::start(MAX_CLAIM_RETRIES);
    assert_eq!(state, ClaimProtocol::Claiming { retries_left: 3 });
    assert!(matches!(directive, Directive::InsertClaim));
}

#[test]
fn an_inserted_row_starts_processing() {
    let (state, _) = ClaimProtocol::start(2);
    let (state, directive) = state.advance(Observation::Inserted { rows: 1 });
    assert_eq!(state, ClaimProtocol::Finished);
    assert!(matches!(directive, Directive::StartProcessing));
}

#[test]
fn a_conflict_leads_to_the_lookup_and_the_saved_response() {
    let (response, snapshot) = saved();
    let (state, _) = ClaimProtocol::start(2);
    let (state, directive) = state.advance(Observation::Inserted { rows: 0 });
    assert_eq!(state, ClaimProtocol::Looking { retries_left: 2 });
    assert!(matches!(directive, Directive::LookUp));
    let (state, directive) = state.advance(Observation::Saved(snapshot));
    assert_eq!(state, ClaimProtocol::Finished);
    match directive {
        Directive::ReturnSavedResponse(replayed) => assert_eq!(replayed, response),
        other => panic!("expected the saved response, got {:?}", other),
    }
}

#[test]
fn a_holder_that_rolled_back_lets_the_claim_be_tried_again() {
    let (state, _) = ClaimProtocol::start(1);
    let (state, _) = state.advance(Observation::Inserted { rows: 0 });
    let (state, directive) = state.advance(Observation::Missing);
    assert_eq!(state, ClaimProtocol::Claiming { retries_left: 0 });
    assert!(matches!(directive, Directive::InsertClaim));
    let (state, directive) = state.advance(Observation::Inserted { rows: 1 });
    assert_eq!(state, ClaimProtocol::Finished);
    assert!(matches!(directive, Directive::StartProcessing));
}

#[test]
fn the_claim_is_given_up_when_no_retry_is_left() {
    let (state, _) = ClaimProtocol::start(0);
    let (state, _) = state.advance(Observation::Inserted { rows: 0 });
    let (state, directive) = state.advance(Observation::Unfinished);
    assert_eq!(state, ClaimProtocol::Finished);
    assert!(matches!(directive, Directive::Fail(IdempotencyError::ClaimConflictTimeout)));
}

#[test]
fn an_expired_wait_is_a_timeout() {
    let (state, _) = ClaimProtocol::start(3);
    let (state, directive) = state.advance(Observation::WaitExpired);
    assert_eq!(state, ClaimProtocol::Finished);
    assert!(matches!(directive, Directive::Fail(IdempotencyError::ClaimConflictTimeout)));
}

#[test]
fn a_fault_of_the_store_fails_the_call() {
    let (state, _) = ClaimProtocol::start(3);
    let (_, directive) = state.advance(Observation::Fault(PersistenceError::Unavailable));
    assert!(matches!(
        directive,
        Directive::Fail(IdempotencyError::Persistence(PersistenceError::Unavailable))
    ));
    let (state, _) = ClaimProtocol::start(3);
    let (state, _) = state.advance(Observation::Inserted { rows: 0 });
    let (_, directive) = state.advance(Observation::Fault(PersistenceError::Unavailable));
    assert!(matches!(
        directive,
        Directive::Fail(IdempotencyError::Persistence(PersistenceError::Unavailable))
    ));
}

#[test]
fn a_snapshot_that_does_not_decode_fails_the_call() {
    let broken = ResponseSnapshot { status_code: 200, headers: vec![1], body: vec![] };
    let (state, _) = ClaimProtocol::start(3);
    let (state, _) = state.advance(Observation::Inserted { rows: 0 });
    let (state, directive) = state.advance(Observation::Saved(broken));
    assert_eq!(state, ClaimProtocol::Finished);
    assert!(matches!(
        directive,
        Directive::Fail(IdempotencyError::Persistence(PersistenceError::CorruptSnapshot))
    ));
}

#[test]
fn an_answer_that_was_not_asked_for_fails_the_call() {
    let (_, snapshot) = saved();
    let (state, _) = ClaimProtocol::start(3);
    let (state, directive) = state.advance(Observation::Saved(snapshot));
    assert_eq!(state, ClaimProtocol::Finished);
    assert!(matches!(
        directive,
        Directive::Fail(IdempotencyError::Persistence(PersistenceError::UnexpectedReply))
    ));
    let (state, directive) = state.advance(Observation::Inserted { rows: 1 });
    assert_eq!(state, ClaimProtocol::Finished);
    assert!(matches!(
        directive,
        Directive::Fail(IdempotencyError::Persistence(PersistenceError::UnexpectedReply))
    ));
    let (state, _) = ClaimProtocol::start(3);
    let (state, _) = state.advance(Observation::Inserted { rows: 0 });
    let (_, directive) = state.advance(Observation::Inserted { rows: 1 });
    assert!(matches!(
        directive,
        Directive::Fail(IdempotencyError::Persistence(PersistenceError::UnexpectedReply))
    ));
}

fn stored(directive: SaveDirective) -> ResponseSnapshot {
    match directive {
        SaveDirective::Update(snapshot) => snapshot,
        other => panic!("expected the snapshot to attach, got {:?}", other),
    }
}

#[test]
fn a_response_is_saved_by_an_update_and_a_commit() {
    let (response, snapshot) = saved();
    let (state, directive) = save_start(&response);
    assert_eq!(state, SaveState::Updating);
    assert_eq!(stored(directive), snapshot);
    let (state, directive) = save_advance(state, SaveObservation::Updated { rows: 1 });
    assert_eq!(state, SaveState::Committing);
    assert!(matches!(directive, SaveDirective::Commit));
    let (state, directive) = save_advance(state, SaveObservation::Committed);
    assert_eq!(state, SaveState::Finished);
    assert!(matches!(directive, SaveDirective::Return));
}

#[test]
fn an_update_that_finds_no_row_shows_that_the_key_is_not_claimed() {
    let (response, _) = saved();
    let (state, _) = save_start(&response);
    let (state, directive) = save_advance(state, SaveObservation::Updated { rows: 0 });
    assert_eq!(state, SaveState::Finished);
    assert!(matches!(directive, SaveDirective::RollBack(IdempotencyError::NotClaimed)));
}

#[test]
fn a_response_that_cannot_be_stored_has_the_transaction_rolled_back() {
    let broken = HttpResponse { status: 7, headers: vec![], body: vec![] };
    let (state, directive) = save_start(&broken);
    assert_eq!(state, SaveState::Finished);
    assert!(matches!(
        directive,
        SaveDirective::RollBack(IdempotencyError::Persistence(
            PersistenceError::UnstorableResponse
        ))
    ));
}

#[test]
fn a_fault_while_saving_ends_the_saving() {
    let fault = SaveObservation::Fault(PersistenceError::Unavailable);
    let (state, directive) = save_advance(SaveState::Updating, fault);
    assert_eq!(state, SaveState::Finished);
    assert!(matches!(
        directive,
        SaveDirective::RollBack(IdempotencyError::Persistence(PersistenceError::Unavailable))
    ));
    // After a failed commit there is nothing left to roll back.
    let (state, directive) = save_advance(SaveState::Committing, fault);
    assert_eq!(state, SaveState::Finished);
    assert!(matches!(
        directive,
        SaveDirective::Fail(IdempotencyError::Persistence(PersistenceError::Unavailable))
    ));
}

#[test]
fn an_answer_that_the_saving_did_not_ask_for_ends_it() {
    let unexpected = IdempotencyError::Persistence(PersistenceError::UnexpectedReply);
    let (_, directive) = save_advance(SaveState::Updating, SaveObservation::Committed);
    assert!(matches!(directive, SaveDirective::RollBack(e) if e == unexpected));
    let (_, directive) = save_advance(SaveState::Committing, SaveObservation::Updated { rows: 1 });
    assert!(matches!(directive, SaveDirective::RollBack(e) if e == unexpected));
    let (state, directive) = save_advance(SaveState::Finished, SaveObservation::Committed);
    assert_eq!(state, SaveState::Finished);
    assert!(matches!(directive, SaveDirective::Fail(e) if e == unexpected));
}
