use zero2prod::http::HeaderPair;
use zero2prod::http::HttpResponse;
use zero2prod::idempotency::protocol::IdempotencyError;
use zero2prod::routes::admin::newsletter::flow::publish_start;
use zero2prod::routes::admin::newsletter::flow::publish_step;
use zero2prod::routes::admin::newsletter::flow::Claimed;
use zero2prod::routes::admin::newsletter::flow::PublishAction;
use zero2prod::routes::admin::newsletter::flow::PublishEvent;
use zero2prod::routes::admin::newsletter::flow::PublishState;
use zero2prod::routes::admin::newsletter::post::PublishError;
use zero2prod::routes::ErrorTrace;
use zero2prod::store::memory::PersistenceError;

const COOKIE: &str = "_flash=signed";

fn header(name: &str, value: &str) -> HeaderPair {
    HeaderPair { name: name.as_bytes().to_vec(), value: value.as_bytes().to_vec() }
}

fn accepted() -> HttpResponse {
    HttpResponse {
        status: 303,
        headers: vec![header("location", "/admin/newsletter"), header("set-cookie", COOKIE)],
        body: vec![],
    }
}

#[test]
fn publishing_starts_with_the_claim() {
    let (state, action) = publish_start();
    assert_eq!(state, PublishState::Claiming);
    assert!(matches!(action, PublishAction::Claim));
}

#[test]
fn a_free_key_leads_through_the_writes_to_the_saved_response() {
    let started = PublishEvent::Claimed(Ok(Claimed::Started));
    let (state, action) = publish_step(PublishState::Claiming, started, COOKIE).unwrap();
    assert_eq!(state, PublishState::Storing);
    assert!(matches!(action, PublishAction::StoreIssue));

    let (state, action) = publish_step(state, PublishEvent::IssueStored(Ok(())), COOKIE).unwrap();
    assert_eq!(state, PublishState::Enqueuing);
    assert!(matches!(action, PublishAction::Enqueue));

    let (state, action) = publish_step(state, PublishEvent::Enqueued(Ok(())), COOKIE).unwrap();
    assert_eq!(state, PublishState::Saving);
    let response = match action {
        PublishAction::Save(response) => response,
        other => panic!("expected the response to save, got {:?}", other),
    };
    assert_eq!(response, accepted());

    let saved = PublishEvent::ResponseSaved(Ok(response));
    let (state, action) = publish_step(state, saved, COOKIE).unwrap();
    assert_eq!(state, PublishState::Finished);
    match action {
        PublishAction::Answer(response) => assert_eq!(response, accepted()),
        other => panic!("expected the answer, got {:?}", other),
    }
}

#[test]
fn a_key_that_was_used_is_answered_with_what_was_saved() {
    let saved = HttpResponse { status: 200, headers: vec![], body: b"before".to_vec() };
    let replayed = PublishEvent::Claimed(Ok(Claimed::Replayed(saved.clone())));
    let (state, action) = publish_step(PublishState::Claiming, replayed, COOKIE).unwrap();
    assert_eq!(state, PublishState::Finished);
    match action {
        PublishAction::Answer(response) => assert_eq!(response, saved),
        other => panic!("expected the answer, got {:?}", other),
    }
}

#[test]
fn a_key_that_is_held_makes_the_request_fail_for_now() {
    let waited = PublishEvent::Claimed(Err(IdempotencyError::ClaimConflictTimeout));
    let (state, action) = publish_step(PublishState::Claiming, waited, COOKIE).unwrap();
    assert_eq!(state, PublishState::Finished);
    assert!(matches!(action, PublishAction::Fail(PublishError::ClaimConflictTimeout)));
}

#[test]
fn a_write_that_fails_has_the_transaction_rolled_back() {
    let cause = ErrorTrace {
        message: "error returned from database".to_string(),
        causes: vec!["duplicate key value".to_string()],
    };
    let failures = vec![
        (
            PublishState::Storing,
            PublishEvent::IssueStored(Err(cause.clone())),
            "Failed to store newsletter issue details",
        ),
        (
            PublishState::Enqueuing,
            PublishEvent::Enqueued(Err(cause.clone())),
            "Failed to enqueue delivery tasks",
        ),
    ];
    for (state, event, message) in failures {
        let (state, action) = publish_step(state, event, COOKIE).unwrap();
        assert_eq!(state, PublishState::Finished);
        match action {
            PublishAction::RollBack(PublishError::UnexpectedError(trace)) => {
                assert_eq!(trace.message, message);
                assert_eq!(
                    trace.causes,
                    vec![
                        "error returned from database".to_string(),
                        "duplicate key value".to_string()
                    ]
                );
            }
            other => panic!("expected a rollback, got {:?}", other),
        }
    }
}

#[test]
fn a_failure_of_the_coordinator_fails_the_request() {
    let exhausted = IdempotencyError::Persistence(PersistenceError::TransactionsExhausted);
    let (_, action) =
        publish_step(PublishState::Claiming, PublishEvent::Claimed(Err(exhausted)), COOKIE)
            .unwrap();
    match action {
        PublishAction::Fail(PublishError::UnexpectedError(trace)) => {
            assert_eq!(trace.message, "Failed to claim the idempotency key");
            assert_eq!(trace.causes, vec!["no transaction number is left".to_string()]);
        }
        other => panic!("expected a failure, got {:?}", other),
    }
    let unsaved = PublishEvent::ResponseSaved(Err(IdempotencyError::NotClaimed));
    let (state, action) = publish_step(PublishState::Saving, unsaved, COOKIE).unwrap();
    assert_eq!(state, PublishState::Finished);
    match action {
        PublishAction::Fail(PublishError::UnexpectedError(trace)) => {
            assert_eq!(trace.message, "Failed to save the response");
            assert_eq!(trace.causes, vec!["the transaction does not hold the key".to_string()]);
        }
        other => panic!("expected a failure, got {:?}", other),
    }
}

#[test]
fn an_event_that_the_step_cannot_end_in_is_not_taken() {
    assert!(publish_step(PublishState::Claiming, PublishEvent::Enqueued(Ok(())), COOKIE).is_none());
    assert!(
        publish_step(PublishState::Storing, PublishEvent::Enqueued(Ok(())), COOKIE).is_none()
    );
    assert!(
        publish_step(PublishState::Finished, PublishEvent::IssueStored(Ok(())), COOKIE).is_none()
    );
    let started = PublishEvent::Claimed(Ok(Claimed::Started));
    assert!(publish_step(PublishState::Saving, started, COOKIE).is_none());
}
