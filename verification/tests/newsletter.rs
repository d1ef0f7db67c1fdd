use zero2prod::authentication::UserId;
use zero2prod::http::HeaderPair;
use zero2prod::http::HttpResponse;
use zero2prod::idempotency::key::IdempotencyKey;
use zero2prod::idempotency::key::ValidationError;
use zero2prod::idempotency::persistence::save_response;
use zero2prod::idempotency::persistence::try_processing;
use zero2prod::idempotency::persistence::NextAction;
use zero2prod::idempotency::protocol::IdempotencyError;
use zero2prod::routes::admin::newsletter::post::accepted_response;
use zero2prod::routes::admin::newsletter::post::enqueue_delivery_tasks;
use zero2prod::routes::admin::newsletter::post::insert_newsletter_issue;
use zero2prod::routes::admin::newsletter::post::publish_issue;
use zero2prod::routes::admin::newsletter::post::publish_newsletter;
use zero2prod::routes::admin::newsletter::post::store_newsletter_issue;
use zero2prod::routes::admin::newsletter::post::BodyData;
use zero2prod::routes::admin::newsletter::post::PublishError;
use zero2prod::routes::flash::CookieKey;
use zero2prod::store::memory::LedgerEntry;
use zero2prod::store::memory::OutboxEntry;
use zero2prod::store::memory::PersistenceError;
use zero2prod::store::memory::Store;

const COOKIE: &str = "_flash=signature-and-message";

fn form(key: &str) -> BodyData {
    BodyData {
        title: "Newsletter title".to_string(),
        text_content: "Newsletter body as plain text".to_string(),
        html_content: "<p>Newsletter body as HTML</p>".to_string(),
        idempotency_key: key.to_string(),
    }
}

fn key(raw: &str) -> IdempotencyKey {
    IdempotencyKey::parse(raw.to_string()).unwrap()
}

fn store_with_confirmed_subscriber() -> Store {
    let mut store = Store::new();
    store
        .add_subscriber(7, "serj@rodrigess.com".to_string(), "serj".to_string(), 1_000)
        .unwrap();
    store.confirm_subscription(7).unwrap();
    store
}

fn header(name: &str, value: &str) -> HeaderPair {
    HeaderPair { name: name.as_bytes().to_vec(), value: value.as_bytes().to_vec() }
}

#[test]
fn newsletter_creation_is_idempotent() {
    let mut store = store_with_confirmed_subscriber();
    let user = UserId(1);

    let first = publish_issue(&mut store, user, form("abc"), 100, COOKIE, 2_000).unwrap();
    assert_eq!(first.status, 303);
    assert_eq!(
        first.headers,
        vec![header("location", "/admin/newsletter"), header("set-cookie", COOKIE)]
    );
    assert!(first.body.is_empty());

    let second = publish_issue(&mut store, user, form("abc"), 101, "other", 3_000).unwrap();
    assert_eq!(second, first);

    assert_eq!(store.issues().len(), 1);
    assert_eq!(store.issues()[0].id, 100);
    assert_eq!(store.issues()[0].title, "Newsletter title");
    assert_eq!(store.issues()[0].published_at, 2_000);
    assert_eq!(store.outbox().len(), 1);
    assert_eq!(store.ledger_rows(), 1);
    assert_eq!(store.open_transactions(), 0);
}

#[test]
fn concurrent_form_submission_is_handled_gracefully() {
    let mut store = store_with_confirmed_subscriber();
    let user = UserId(0x75_31);
    let abc = key("abc");

    // The first request claims the key and is still at work.
    let transaction = match try_processing(&mut store, &abc, user, 10).unwrap() {
        NextAction::StartProcessing(transaction) => transaction,
        NextAction::ReturnSavedResponse(_) => panic!("nothing was saved yet"),
    };
    assert!(matches!(store.ledger_entry(user, &abc), LedgerEntry::InFlight(_)));

    // The second request arrives meanwhile: it has to wait, and changes nothing.
    let waiting = publish_issue(&mut store, user, form("abc"), 2, COOKIE, 11);
    assert_eq!(waiting, Err(PublishError::ClaimConflictTimeout));
    assert_eq!(waiting.unwrap_err().into_response().status, 503);
    assert_eq!(store.issues().len(), 0);
    assert_eq!(store.open_transactions(), 1);

    // The first request finishes.
    let id =
        store_newsletter_issue(&mut store, &transaction, 1, "Newsletter title", "text", "html", 10)
            .unwrap();
    assert_eq!(id, 1);
    enqueue_delivery_tasks(&mut store, &transaction, 1).unwrap();
    assert_eq!(store.issues().len(), 0);
    assert_eq!(store.outbox().len(), 0);
    let first =
        save_response(&mut store, transaction, &abc, user, accepted_response(COOKIE)).unwrap();

    // The second request, let through, gets the very same response.
    let second = publish_issue(&mut store, user, form("abc"), 2, "another cookie", 12).unwrap();
    assert_eq!(first, second);
    assert_eq!(store.issues().len(), 1);
    assert_eq!(store.issues()[0].id, 1);
    assert_eq!(
        store.outbox(),
        &vec![OutboxEntry { issue_id: 1, recipient: "serj@rodrigess.com".to_string() }]
    );
}

#[test]
fn request_with_an_empty_key_is_rejected_and_writes_nothing() {
    let mut store = store_with_confirmed_subscriber();
    let rejected = publish_issue(&mut store, UserId(1), form(""), 5, COOKIE, 1);
    assert_eq!(rejected, Err(PublishError::ValidationError(ValidationError::Empty)));
    assert_eq!(store.ledger_rows(), 0);
    assert_eq!(store.open_transactions(), 0);
    assert_eq!(store.issues().len(), 0);
    assert_eq!(store.outbox().len(), 0);

    let response = rejected.unwrap_err().into_response();
    assert_eq!(response.status, 400);
    assert_eq!(response.body, b"The idempotency key cannot be empty".to_vec());
}

#[test]
fn request_with_an_oversized_key_is_rejected() {
    let mut store = Store::new();
    let long = "k".repeat(256);
    let rejected = publish_issue(&mut store, UserId(1), form(&long), 5, COOKIE, 1);
    assert_eq!(rejected, Err(PublishError::ValidationError(ValidationError::TooLong)));
    let longest = "k".repeat(255);
    assert!(publish_issue(&mut store, UserId(1), form(&longest), 5, COOKIE, 1).is_ok());
}

#[test]
fn a_failed_write_rolls_back_and_frees_the_key() {
    let mut store = store_with_confirmed_subscriber();
    let user = UserId(1);
    publish_issue(&mut store, user, form("first"), 100, COOKIE, 1).unwrap();

    // The id of the new issue is taken: the insert violates the primary key.
    let failed = publish_issue(&mut store, user, form("second"), 100, COOKIE, 2);
    match &failed {
        Err(PublishError::UnexpectedError(trace)) => {
            assert_eq!(trace.message, "Failed to store newsletter issue details");
            assert_eq!(trace.causes, vec!["an issue with this id exists already".to_string()]);
        }
        other => panic!("expected a failure of the store, got {:?}", other),
    }
    assert_eq!(
        failed.unwrap_err().into_response(),
        HttpResponse { status: 500, headers: vec![], body: vec![] }
    );
    assert!(matches!(store.ledger_entry(user, &key("second")), LedgerEntry::Absent));
    assert_eq!(store.open_transactions(), 0);
    assert_eq!(store.issues().len(), 1);
    assert_eq!(store.outbox().len(), 1);

    // The retry under the same key is a fresh claim and creates one issue.
    let retried = publish_issue(&mut store, user, form("second"), 101, COOKIE, 3).unwrap();
    assert_eq!(retried.status, 303);
    assert_eq!(store.issues().len(), 2);
    assert_eq!(store.issues()[1].id, 101);
    assert_eq!(store.outbox().len(), 2);
    assert!(matches!(store.ledger_entry(user, &key("second")), LedgerEntry::Completed(_)));
}

#[test]
fn newsletters_are_not_delivered_to_unconfirmed_subscribers() {
    let mut store = Store::new();
    store.add_subscriber(1, "a@example.com".to_string(), "a".to_string(), 0).unwrap();
    let response = publish_issue(&mut store, UserId(9), form("k"), 1, COOKIE, 0).unwrap();
    assert_eq!(response.status, 303);
    assert_eq!(store.issues().len(), 1);
    assert!(store.outbox().is_empty());
}

#[test]
fn newsletters_are_delivered_to_confirmed_subscribers() {
    let mut store = Store::new();
    store.add_subscriber(1, "a@example.com".to_string(), "a".to_string(), 0).unwrap();
    store.add_subscriber(2, "b@example.com".to_string(), "b".to_string(), 0).unwrap();
    store.add_subscriber(3, "c@example.com".to_string(), "c".to_string(), 0).unwrap();
    store.confirm_subscription(1).unwrap();
    store.confirm_subscription(3).unwrap();
    publish_issue(&mut store, UserId(9), form("k"), 42, COOKIE, 0).unwrap();
    assert_eq!(
        store.outbox(),
        &vec![
            OutboxEntry { issue_id: 42, recipient: "a@example.com".to_string() },
            OutboxEntry { issue_id: 42, recipient: "c@example.com".to_string() },
        ]
    );
}

#[test]
fn different_callers_and_keys_do_not_meet() {
    let mut store = store_with_confirmed_subscriber();
    let held = match try_processing(&mut store, &key("abc"), UserId(1), 0).unwrap() {
        NextAction::StartProcessing(transaction) => transaction,
        NextAction::ReturnSavedResponse(_) => panic!("nothing was saved yet"),
    };
    // Same key, other caller; same caller, other key: neither waits.
    assert!(publish_issue(&mut store, UserId(2), form("abc"), 1, COOKIE, 0).is_ok());
    assert!(publish_issue(&mut store, UserId(1), form("abd"), 2, COOKIE, 0).is_ok());
    assert!(matches!(store.ledger_entry(UserId(1), &key("abc")), LedgerEntry::InFlight(_)));
    store.rollback(held);
    assert!(matches!(store.ledger_entry(UserId(1), &key("abc")), LedgerEntry::Absent));
    assert!(matches!(store.ledger_entry(UserId(2), &key("abc")), LedgerEntry::Completed(_)));
    assert_eq!(store.issues().len(), 2);
}

#[test]
fn save_response_without_the_claim_fails_and_rolls_back() {
    let mut store = Store::new();
    let user = UserId(1);
    let transaction = match try_processing(&mut store, &key("abc"), user, 0).unwrap() {
        NextAction::StartProcessing(transaction) => transaction,
        NextAction::ReturnSavedResponse(_) => panic!("nothing was saved yet"),
    };
    let response = accepted_response(COOKIE);
    let saved = save_response(&mut store, transaction, &key("other"), user, response);
    assert_eq!(saved, Err(IdempotencyError::NotClaimed));
    assert_eq!(store.ledger_rows(), 0);
    assert_eq!(store.open_transactions(), 0);
}

#[test]
fn two_submissions_under_a_free_key_leave_one_issue_and_one_set_of_rows() {
    let mut store = Store::new();
    store.add_subscriber(1, "a@example.com".to_string(), "a".to_string(), 0).unwrap();
    store.add_subscriber(2, "b@example.com".to_string(), "b".to_string(), 0).unwrap();
    store.add_subscriber(3, "c@example.com".to_string(), "c".to_string(), 0).unwrap();
    store.confirm_subscription(1).unwrap();
    store.confirm_subscription(2).unwrap();
    assert!(matches!(store.ledger_entry(UserId(1), &key("abc")), LedgerEntry::Absent));
    let mut responses = Vec::new();
    for attempt in 0..4 {
        responses.push(publish_issue(&mut store, UserId(1), form("abc"), 50 + attempt, COOKIE, 0));
    }
    assert!(responses.iter().all(|response| response.is_ok() && *response == responses[0]));
    assert_eq!(store.issues().len(), 1);
    assert_eq!(store.issues()[0].id, 50);
    // Two rows for two confirmed subscribers, not eight for four submissions.
    assert_eq!(store.outbox().len(), 2);
    assert!(store.outbox().iter().all(|row| row.issue_id == 50));
}

#[test]
fn save_response_refuses_a_response_that_cannot_be_stored() {
    let mut store = Store::new();
    let user = UserId(1);
    let transaction = match try_processing(&mut store, &key("abc"), user, 0).unwrap() {
        NextAction::StartProcessing(transaction) => transaction,
        NextAction::ReturnSavedResponse(_) => panic!("nothing was saved yet"),
    };
    let broken = HttpResponse { status: 42, headers: vec![], body: vec![] };
    let saved = save_response(&mut store, transaction, &key("abc"), user, broken);
    assert_eq!(saved, Err(IdempotencyError::Persistence(PersistenceError::UnstorableResponse)));
    assert!(matches!(store.ledger_entry(user, &key("abc")), LedgerEntry::Absent));
}

#[test]
fn writes_under_a_closed_transaction_are_refused() {
    let mut first = Store::new();
    let mut second = Store::new();
    let foreign = match try_processing(&mut first, &key("abc"), UserId(1), 0).unwrap() {
        NextAction::StartProcessing(transaction) => transaction,
        NextAction::ReturnSavedResponse(_) => panic!("nothing was saved yet"),
    };
    assert_eq!(
        store_newsletter_issue(&mut second, &foreign, 1, "t", "x", "h", 0),
        Err(PersistenceError::TransactionClosed)
    );
    assert_eq!(
        enqueue_delivery_tasks(&mut second, &foreign, 1),
        Err(PersistenceError::TransactionClosed)
    );
    // Nobody is confirmed: nothing is enqueued, and nothing refers to the issue.
    assert_eq!(enqueue_delivery_tasks(&mut first, &foreign, 1), Ok(()));
    first.add_subscriber(1, "a@example.com".to_string(), "a".to_string(), 0).unwrap();
    first.confirm_subscription(1).unwrap();
    assert_eq!(
        enqueue_delivery_tasks(&mut first, &foreign, 1),
        Err(PersistenceError::UnknownIssue)
    );
    first.rollback(foreign);
    assert!(first.outbox().is_empty());
}

#[test]
fn insert_newsletter_issue_draws_a_random_version_4_id() {
    let mut store = Store::new();
    let transaction = match try_processing(&mut store, &key("abc"), UserId(1), 0).unwrap() {
        NextAction::StartProcessing(transaction) => transaction,
        NextAction::ReturnSavedResponse(_) => panic!("nothing was saved yet"),
    };
    let first = insert_newsletter_issue(&mut store, &transaction, "t", "x", "h", 0).unwrap();
    let second = insert_newsletter_issue(&mut store, &transaction, "t", "x", "h", 0).unwrap();
    assert_ne!(first, second);
    for id in [first, second] {
        assert_eq!(uuid::Uuid::from_u128(id).get_version_num(), 4);
        assert_eq!((id >> 62) & 0b11, 0b10);
    }
}

#[test]
fn publish_newsletter_signs_the_flash_cookie() {
    let mut store = store_with_confirmed_subscriber();
    let bytes: Vec<u8> = (0..64).collect();
    let cookie_key = CookieKey::new(bytes.clone()).unwrap();
    let response = publish_newsletter(&mut store, &cookie_key, UserId(1), form("abc"), 0).unwrap();
    assert_eq!(response.status, 303);
    assert_eq!(response.headers.len(), 2);
    assert_eq!(response.headers[0], header("location", "/admin/newsletter"));
    assert_eq!(response.headers[1].name, b"set-cookie".to_vec());

    let sent = String::from_utf8(response.headers[1].value.clone()).unwrap();
    let message = "The newsletter issue has been accepted - emails will go out shortly.";
    assert!(sent.starts_with("_flash="));
    assert_ne!(sent, format!("_flash={}", message));

    // What was sent verifies under the same key and under no other.
    let parsed = cookie::Cookie::parse_encoded(sent.clone()).unwrap().into_owned();
    let jar = cookie::CookieJar::new();
    let verified = jar.signed(&cookie::Key::from(&bytes)).verify(parsed.clone()).unwrap();
    assert_eq!(verified.value(), message);
    let other: Vec<u8> = (1..65).collect();
    assert!(jar.signed(&cookie::Key::from(&other)).verify(parsed).is_none());

    // The same key signs the same message the same way.
    assert_eq!(cookie_key.flash(message), sent);
    assert_eq!(store.issues().len(), 1);
}

#[test]
fn a_cookie_key_needs_64_bytes() {
    assert!(CookieKey::new(vec![0; 63]).is_none());
    assert!(CookieKey::new(vec![0; 64]).is_some());
}

#[test]
fn the_outbox_rows_are_those_of_the_moment_of_enqueuing() {
    let mut store = Store::new();
    store.add_subscriber(1, "a@example.com".to_string(), "a".to_string(), 0).unwrap();
    store.add_subscriber(2, "b@example.com".to_string(), "b".to_string(), 0).unwrap();
    store.confirm_subscription(1).unwrap();
    let user = UserId(1);
    let abc = key("abc");
    let transaction = match try_processing(&mut store, &abc, user, 0).unwrap() {
        NextAction::StartProcessing(transaction) => transaction,
        NextAction::ReturnSavedResponse(_) => panic!("nothing was saved yet"),
    };
    store_newsletter_issue(&mut store, &transaction, 7, "t", "x", "h", 0).unwrap();

    // Meanwhile another request publishes an issue of its own.
    publish_issue(&mut store, UserId(2), form("abc"), 8, COOKIE, 0).unwrap();

    enqueue_delivery_tasks(&mut store, &transaction, 7).unwrap();

    // Subscriptions change between the enqueuing and the commit.
    store.confirm_subscription(2).unwrap();
    store.add_subscriber(3, "c@example.com".to_string(), "c".to_string(), 0).unwrap();
    store.confirm_subscription(3).unwrap();

    save_response(&mut store, transaction, &abc, user, accepted_response(COOKIE)).unwrap();

    let rows: Vec<&OutboxEntry> = store.outbox().iter().filter(|row| row.issue_id == 7).collect();
    assert_eq!(rows, vec![&OutboxEntry { issue_id: 7, recipient: "a@example.com".to_string() }]);
    let others: Vec<&OutboxEntry> = store.outbox().iter().filter(|row| row.issue_id == 8).collect();
    assert_eq!(others, vec![&OutboxEntry { issue_id: 8, recipient: "a@example.com".to_string() }]);
    assert_eq!(store.issues().len(), 2);
}

#[test]
fn a_replay_is_byte_identical_whatever_happened_in_between() {
    let mut store = store_with_confirmed_subscriber();
    let user = UserId(1);
    let first = publish_issue(&mut store, user, form("abc"), 1, COOKIE, 0).unwrap();
    publish_issue(&mut store, user, form("other"), 2, "cookie of another", 1).unwrap();
    publish_issue(&mut store, UserId(2), form("abc"), 3, "cookie of a third", 2).unwrap();
    store.add_subscriber(9, "z@example.com".to_string(), "z".to_string(), 3).unwrap();
    let issues = store.issues().len();
    let rows = store.outbox().len();
    for attempt in 0..5 {
        let again = publish_issue(&mut store, user, form("abc"), 100 + attempt, "new", 4).unwrap();
        assert_eq!(again.status, first.status);
        assert_eq!(again.headers, first.headers);
        assert_eq!(again.body, first.body);
    }
    assert_eq!(store.issues().len(), issues);
    assert_eq!(store.outbox().len(), rows);
}
