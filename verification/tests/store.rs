use zero2prod::authentication::UserId;
use zero2prod::idempotency::key::IdempotencyKey;
use zero2prod::idempotency::persistence::try_processing;
use zero2prod::idempotency::persistence::NextAction;
use zero2prod::idempotency::protocol::IdempotencyError;
use zero2prod::routes::subscriptions::insert_subscriber;
use zero2prod::routes::subscriptions_confirm::confirm_subscriber;
use zero2prod::store::memory::LedgerEntry;
use zero2prod::store::memory::NewsletterIssue;
use zero2prod::store::memory::PersistenceError;
use zero2prod::store::memory::Store;
use zero2prod::store::memory::Subscriber;
use zero2prod::store::memory::Transaction;

fn key(raw: &str) -> IdempotencyKey {
    IdempotencyKey::parse(raw.to_string()).unwrap()
}

fn claim(store: &mut Store, user: u128, raw: &str) -> Transaction {
    match try_processing(store, &key(raw), UserId(user), 0).unwrap() {
        NextAction::StartProcessing(transaction) => transaction,
        NextAction::ReturnSavedResponse(_) => panic!("nothing was saved yet"),
    }
}

fn issue(id: u128) -> NewsletterIssue {
    NewsletterIssue {
        id,
        title: "title".to_string(),
        text_content: "text".to_string(),
        html_content: "html".to_string(),
        published_at: 0,
    }
}

#[test]
fn a_new_store_is_empty() {
    let store = Store::new();
    assert_eq!(store.ledger_rows(), 0);
    assert_eq!(store.open_transactions(), 0);
    assert!(store.issues().is_empty());
    assert!(store.outbox().is_empty());
    assert!(store.subscribers().is_empty());
    assert!(store.has_transaction_left());
    assert!(matches!(store.ledger_entry(UserId(1), &key("abc")), LedgerEntry::Absent));
}

#[test]
fn transactions_are_numbered_in_the_order_of_their_claims() {
    let mut store = Store::new();
    let first = claim(&mut store, 1, "a");
    let second = claim(&mut store, 1, "b");
    assert_eq!(first.number(), 0);
    assert_eq!(second.number(), 1);
    assert!(store.holds_claim(&first, UserId(1), &key("a")));
    assert!(!store.holds_claim(&first, UserId(1), &key("b")));
    assert!(!store.holds_claim(&first, UserId(2), &key("a")));
    assert!(matches!(store.ledger_entry(UserId(1), &key("b")), LedgerEntry::InFlight(1)));
    store.rollback(first);
    let third = claim(&mut store, 1, "a");
    assert_eq!(third.number(), 2);
    assert_eq!(store.open_transactions(), 2);
}

#[test]
fn a_held_key_makes_the_next_claim_wait() {
    let mut store = Store::new();
    let _held = claim(&mut store, 1, "a");
    let waiting = try_processing(&mut store, &key("a"), UserId(1), 5);
    assert!(matches!(waiting, Err(IdempotencyError::ClaimConflictTimeout)));
    assert_eq!(store.open_transactions(), 1);
}

#[test]
fn an_issue_id_can_be_staged_once() {
    let mut store = Store::new();
    let first = claim(&mut store, 1, "a");
    let second = claim(&mut store, 1, "b");
    assert_eq!(store.stage_issue(&first, issue(9)), Ok(()));
    assert_eq!(store.stage_issue(&first, issue(9)), Err(PersistenceError::DuplicateIssue));
    assert_eq!(store.stage_issue(&second, issue(9)), Err(PersistenceError::DuplicateIssue));
    assert_eq!(store.stage_issue(&second, issue(10)), Ok(()));
    // What is staged is not visible before the commit.
    assert!(store.issues().is_empty());
}

#[test]
fn deliveries_need_an_issue_that_the_transaction_can_see() {
    let mut store = Store::new();
    store.add_subscriber(1, "a@example.com".to_string(), "a".to_string(), 0).unwrap();
    store.confirm_subscription(1).unwrap();
    let first = claim(&mut store, 1, "a");
    let second = claim(&mut store, 1, "b");
    store.stage_issue(&first, issue(9)).unwrap();
    assert_eq!(store.stage_deliveries(&second, 9), Err(PersistenceError::UnknownIssue));
    assert_eq!(store.stage_deliveries(&first, 9), Ok(1));
    assert_eq!(store.stage_deliveries(&first, 8), Err(PersistenceError::UnknownIssue));
    assert!(store.outbox().is_empty());
}

#[test]
fn without_confirmed_subscribers_there_is_nothing_to_enqueue() {
    let mut store = Store::new();
    store.add_subscriber(1, "a@example.com".to_string(), "a".to_string(), 0).unwrap();
    let transaction = claim(&mut store, 1, "a");
    assert_eq!(store.stage_deliveries(&transaction, 9), Ok(0));
    store.stage_issue(&transaction, issue(9)).unwrap();
    assert_eq!(store.stage_deliveries(&transaction, 9), Ok(0));
}

#[test]
fn a_rollback_discards_what_was_staged() {
    let mut store = Store::new();
    store.add_subscriber(1, "a@example.com".to_string(), "a".to_string(), 0).unwrap();
    store.confirm_subscription(1).unwrap();
    let transaction = claim(&mut store, 1, "a");
    store.stage_issue(&transaction, issue(9)).unwrap();
    store.stage_deliveries(&transaction, 9).unwrap();
    store.rollback(transaction);
    assert!(store.issues().is_empty());
    assert!(store.outbox().is_empty());
    assert_eq!(store.ledger_rows(), 0);
    assert_eq!(store.open_transactions(), 0);
    // The id is free again.
    let again = claim(&mut store, 1, "a");
    assert_eq!(store.stage_issue(&again, issue(9)), Ok(()));
}

#[test]
fn a_subscriber_is_added_once() {
    let mut store = Store::new();
    assert_eq!(store.add_subscriber(1, "a@example.com".to_string(), "a".to_string(), 7), Ok(()));
    assert_eq!(
        store.add_subscriber(1, "b@example.com".to_string(), "b".to_string(), 8),
        Err(PersistenceError::DuplicateSubscriber)
    );
    assert_eq!(
        store.add_subscriber(2, "a@example.com".to_string(), "b".to_string(), 8),
        Err(PersistenceError::DuplicateSubscriber)
    );
    assert_eq!(
        store.subscribers(),
        &vec![Subscriber {
            id: 1,
            email: "a@example.com".to_string(),
            name: "a".to_string(),
            subscribed_at: 7,
            confirmed: false,
        }]
    );
}

#[test]
fn a_subscription_is_confirmed_by_its_id() {
    let mut store = Store::new();
    store.add_subscriber(1, "a@example.com".to_string(), "a".to_string(), 0).unwrap();
    store.add_subscriber(2, "b@example.com".to_string(), "b".to_string(), 0).unwrap();
    assert_eq!(confirm_subscriber(&mut store, 2), Ok(()));
    assert!(!store.subscribers()[0].confirmed);
    assert!(store.subscribers()[1].confirmed);
    assert_eq!(confirm_subscriber(&mut store, 2), Ok(()));
    assert!(store.subscribers()[1].confirmed);
    assert!(!store.subscribers()[0].confirmed);
}

#[test]
fn confirming_an_unknown_subscriber_changes_nothing_and_is_no_failure() {
    let mut store = Store::new();
    assert_eq!(confirm_subscriber(&mut store, 3), Ok(()));
    assert!(store.subscribers().is_empty());
    store.add_subscriber(1, "a@example.com".to_string(), "a".to_string(), 0).unwrap();
    let before = store.subscribers().clone();
    assert_eq!(confirm_subscriber(&mut store, 3), Ok(()));
    assert_eq!(store.subscribers(), &before);
    // The store itself tells the two apart.
    assert_eq!(store.confirm_subscription(3), Err(PersistenceError::UnknownSubscriber));
    assert_eq!(store.subscribers(), &before);
}

#[test]
fn subscribe_persists_the_new_subscriber() {
    let mut store = Store::new();
    let id = insert_subscriber(&mut store, "serj@rodrigess.com", "serj").unwrap();
    assert_eq!(store.subscribers().len(), 1);
    let saved = &store.subscribers()[0];
    assert_eq!(saved.id, id);
    assert_eq!(saved.email, "serj@rodrigess.com");
    assert_eq!(saved.name, "serj");
    assert!(!saved.confirmed);
    assert_eq!(uuid::Uuid::from_u128(id).get_version_num(), 4);
    // The time is that of the call; 2020 began at 1577836800.
    assert!(saved.subscribed_at > 1_577_836_800);

    assert_eq!(
        insert_subscriber(&mut store, "serj@rodrigess.com", "again"),
        Err(PersistenceError::DuplicateSubscriber)
    );
    assert_eq!(store.subscribers().len(), 1);
}

#[test]
fn the_store_says_what_went_wrong() {
    assert_eq!(PersistenceError::TransactionClosed.message(), "the transaction is not open");
    assert_eq!(
        PersistenceError::DuplicateIssue.message(),
        "an issue with this id exists already"
    );
    assert_eq!(
        PersistenceError::UnknownIssue.message(),
        "the issue is not visible to the transaction"
    );
    assert_eq!(PersistenceError::DuplicateSubscriber.message(), "the subscriber exists already");
    assert_eq!(PersistenceError::UnknownSubscriber.message(), "no subscriber has this id");
    assert_eq!(
        PersistenceError::TransactionsExhausted.message(),
        "no transaction number is left"
    );
    assert_eq!(
        PersistenceError::UnstorableResponse.message(),
        "the response cannot be stored"
    );
    assert_eq!(PersistenceError::CorruptSnapshot.message(), "a stored response cannot be read");
    assert_eq!(
        PersistenceError::UnexpectedReply.message(),
        "the store gave an unexpected reply"
    );
    assert_eq!(PersistenceError::Unavailable.message(), "the store is not available");
}
