//! A store that keeps the state in memory.
//!
//! It is the store to test against, and the measure of any other: every
//! operation is one atomic step of the model, and does to the state exactly
//! what the model says. An operation that a database would make wait for
//! another transaction's row lock reports instead that the row is held, and
//! changes nothing.

use crate::authentication::middleware::UserId;
use crate::idempotency::key::IdempotencyKey;
use crate::idempotency::snapshot::decode_spec;
use crate::idempotency::snapshot::ResponseSnapshot;
use crate::store::model::confirm_in;
use crate::store::model::deliveries_to_confirmed;
use crate::store::model::lemma_claim_preserves_wf;
use crate::store::model::lemma_commit_preserves_wf;
use crate::store::model::lemma_deliveries_to_confirmed;
use crate::store::model::lemma_empty_is_wf;
use crate::store::model::lemma_ledger_index_is_unique;
use crate::store::model::lemma_rollback_preserves_wf;
use crate::store::model::lemma_slot_is_unique;
use crate::store::model::lemma_stage_deliveries_preserves_wf;
use crate::store::model::lemma_stage_issue_preserves_wf;
use crate::store::model::lemma_subscriptions_preserve_wf;
use crate::store::model::lemma_views_push;
use crate::store::model::lemma_views_remove;
use crate::store::model::lemma_views_update;
use crate::store::model::views;
use crate::store::model::ClaimKey;
use crate::store::model::DeliveryView;
use crate::store::model::IssueView;
use crate::store::model::LedgerRow;
use crate::store::model::LedgerState;
use crate::store::model::PendingClaim;
use crate::store::model::StoreView;
use crate::store::model::SubscriberView;
use crate::store::trace::Step;
use vstd::prelude::*;

verus! {

/// Why the store refused a write.
#[derive(Clone, Copy, Debug, PartialEq, Eq, Structural)]
pub enum PersistenceError {
    /// The transaction is not open in this store.
    TransactionClosed,
    /// An issue with this id exists already, committed or staged.
    DuplicateIssue,
    /// The issue to deliver is not visible to the transaction.
    UnknownIssue,
    /// A subscription with this id or this address exists already.
    DuplicateSubscriber,
    /// No subscription has this id.
    UnknownSubscriber,
    /// The store has no transaction number left to give out.
    TransactionsExhausted,
    /// The response cannot be stored.
    UnstorableResponse,
    /// A stored snapshot does not decode.
    CorruptSnapshot,
    /// The store answered something that the question did not ask for.
    UnexpectedReply,
    /// The store could not be reached, or failed for a reason of its own.
    Unavailable,
}

impl PersistenceError {
    /// What the error says, as a text.
    pub open spec fn message_spec(&self) -> Seq<char> {
        match self {
            PersistenceError::TransactionClosed => "the transaction is not open"@,
            PersistenceError::DuplicateIssue => "an issue with this id exists already"@,
            PersistenceError::UnknownIssue => "the issue is not visible to the transaction"@,
            PersistenceError::DuplicateSubscriber => "the subscriber exists already"@,
            PersistenceError::UnknownSubscriber => "no subscriber has this id"@,
            PersistenceError::TransactionsExhausted => "no transaction number is left"@,
            PersistenceError::UnstorableResponse => "the response cannot be stored"@,
            PersistenceError::CorruptSnapshot => "a stored response cannot be read"@,
            PersistenceError::UnexpectedReply => "the store gave an unexpected reply"@,
            PersistenceError::Unavailable => "the store is not available"@,
        }
    }

    /// What the error says.
    pub fn message(&self) -> (message: &'static str)
        ensures
            message@ == self.message_spec(),
    {
        match self {
            PersistenceError::TransactionClosed => "the transaction is not open",
            PersistenceError::DuplicateIssue => "an issue with this id exists already",
            PersistenceError::UnknownIssue => "the issue is not visible to the transaction",
            PersistenceError::DuplicateSubscriber => "the subscriber exists already",
            PersistenceError::UnknownSubscriber => "no subscriber has this id",
            PersistenceError::TransactionsExhausted => "no transaction number is left",
            PersistenceError::UnstorableResponse => "the response cannot be stored",
            PersistenceError::CorruptSnapshot => "a stored response cannot be read",
            PersistenceError::UnexpectedReply => "the store gave an unexpected reply",
            PersistenceError::Unavailable => "the store is not available",
        }
    }
}

/// An open transaction. It cannot be copied: whoever holds it is the one
/// owner of the work done under it, and finishing the work uses it up.
#[derive(Debug)]
pub struct Transaction {
    id: u64,
}

impl View for Transaction {
    type V = u64;

    closed spec fn view(&self) -> u64 {
        self.id
    }
}

impl Transaction {
    /// The number that the store gave this transaction.
    pub fn number(&self) -> (id: u64)
        ensures
            id == self@,
    {
        self.id
    }
}

/// A newsletter issue.
#[derive(Clone, Debug, PartialEq, Eq)]
pub struct NewsletterIssue {
    pub id: u128,
    pub title: String,
    pub text_content: String,
    pub html_content: String,
    pub published_at: i64,
}

impl View for NewsletterIssue {
    type V = IssueView;

    open spec fn view(&self) -> IssueView {
        IssueView {
            id: self.id,
            title: self.title@,
            text_content: self.text_content@,
            html_content: self.html_content@,
            published_at: self.published_at,
        }
    }
}

/// One row of the outbox: deliver this issue to this address.
#[derive(Clone, Debug, PartialEq, Eq)]
pub struct OutboxEntry {
    pub issue_id: u128,
    pub recipient: String,
}

impl View for OutboxEntry {
    type V = DeliveryView;

    open spec fn view(&self) -> DeliveryView {
        DeliveryView { issue_id: self.issue_id, recipient: self.recipient@ }
    }
}

/// A subscription.
#[derive(Clone, Debug, PartialEq, Eq)]
pub struct Subscriber {
    pub id: u128,
    pub email: String,
    pub name: String,
    pub subscribed_at: i64,
    pub confirmed: bool,
}

impl View for Subscriber {
    type V = SubscriberView;

    open spec fn view(&self) -> SubscriberView {
        SubscriberView {
            id: self.id,
            email: self.email@,
            name: self.name@,
            subscribed_at: self.subscribed_at,
            confirmed: self.confirmed,
        }
    }
}

/// A committed ledger row.
struct LedgerRecord {
    caller: UserId,
    key: String,
    created_at: i64,
    snapshot: ResponseSnapshot,
}

impl View for LedgerRecord {
    type V = LedgerRow;

    closed spec fn view(&self) -> LedgerRow {
        LedgerRow {
            claim: ClaimKey { caller: self.caller@, key: self.key@ },
            created_at: self.created_at,
            snapshot: self.snapshot@,
        }
    }
}

/// An uncommitted ledger row with what its transaction has staged.
struct Claim {
    transaction: u64,
    caller: UserId,
    key: String,
    created_at: i64,
    issues: Vec<NewsletterIssue>,
    deliveries: Vec<OutboxEntry>,
}

impl View for Claim {
    type V = PendingClaim;

    closed spec fn view(&self) -> PendingClaim {
        PendingClaim {
            transaction: self.transaction,
            claim: ClaimKey { caller: self.caller@, key: self.key@ },
            created_at: self.created_at,
            issues: views(self.issues@),
            deliveries: views(self.deliveries@),
        }
    }
}

/// What the ledger holds for a key, as a value.
#[derive(Debug)]
pub enum LedgerEntry {
    /// No row.
    Absent,
    /// An uncommitted row held by the transaction with this number.
    InFlight(u64),
    /// A committed row with this snapshot.
    Completed(ResponseSnapshot),
}

/// The key that a caller and an idempotency key make together.
pub open spec fn claim_key(caller: UserId, key: IdempotencyKey) -> ClaimKey {
    ClaimKey { caller: caller@, key: key@ }
}

/// The in-memory store.
pub struct Store {
    ledger: Vec<LedgerRecord>,
    in_flight: Vec<Claim>,
    issues: Vec<NewsletterIssue>,
    outbox: Vec<OutboxEntry>,
    subscribers: Vec<Subscriber>,
    next_transaction: u64,
}

impl View for Store {
    type V = StoreView;

    closed spec fn view(&self) -> StoreView {
        StoreView {
            ledger: views(self.ledger@),
            in_flight: views(self.in_flight@),
            issues: views(self.issues@),
            outbox: views(self.outbox@),
            subscribers: views(self.subscribers@),
            next_transaction: self.next_transaction as nat,
        }
    }
}

/// Copies a snapshot.
fn copy_snapshot(snapshot: &ResponseSnapshot) -> (copy: ResponseSnapshot)
    ensures
        copy@ == snapshot@,
{
    ResponseSnapshot {
        status_code: snapshot.status_code,
        headers: crate::http::copy_bytes(&snapshot.headers),
        body: crate::http::copy_bytes(&snapshot.body),
    }
}

/// Where in a table of issues the one with this id stands, if any does.
fn position_of_issue(issues: &Vec<NewsletterIssue>, id: u128) -> (found: Option<usize>)
    ensures
        match found {
            Some(i) => i < issues.len() && issues[i as int].id == id,
            None => forall|i: int| 0 <= i < issues.len() ==> (#[trigger] issues[i]).id != id,
        },
{
    let mut i: usize = 0;
    while i < issues.len()
        invariant
            i <= issues.len(),
            forall|j: int| 0 <= j < i ==> (#[trigger] issues[j]).id != id,
        decreases issues.len() - i,
    {
        if issues[i].id == id {
            return Some(i);
        }
        i = i + 1;
    }
    None
}

impl Store {
    /// The invariant of the store: that of its state.
    pub open spec fn wf(&self) -> bool {
        self@.wf()
    }

    /// A store that holds nothing.
    pub fn new() -> (store: Store)
        ensures
            store@ == StoreView::empty(),
            store.wf(),
    {
        let store = Store {
            ledger: Vec::new(),
            in_flight: Vec::new(),
            issues: Vec::new(),
            outbox: Vec::new(),
            subscribers: Vec::new(),
            next_transaction: 0,
        };
        proof {
            lemma_empty_is_wf();
            assert(store@.ledger =~= Seq::empty());
            assert(store@.in_flight =~= Seq::empty());
            assert(store@.issues =~= Seq::empty());
            assert(store@.outbox =~= Seq::empty());
            assert(store@.subscribers =~= Seq::empty());
        }
        store
    }

    /// Where the committed row for the key stands, if there is one.
    fn position_of_record(&self, caller: UserId, key: &IdempotencyKey) -> (found: Option<usize>)
        ensures
            match found {
                Some(i) => i < self.ledger.len() && self@.ledger[i as int].claim == claim_key(
                    caller,
                    *key,
                ),
                None => !self@.is_completed(claim_key(caller, *key)),
            },
    {
        let mut i: usize = 0;
        while i < self.ledger.len()
            invariant
                i <= self.ledger.len(),
                forall|j: int| 0 <= j < i ==> (#[trigger] self@.ledger[j]).claim != claim_key(
                    caller,
                    *key,
                ),
            decreases self.ledger.len() - i,
        {
            let record = &self.ledger[i];
            assert(self@.ledger[i as int] == record@);
            if record.caller.0 == caller.0 && key.has_text(&record.key) {
                assert(record@.claim =~= claim_key(caller, *key));
                return Some(i);
            }
            i = i + 1;
        }
        None
    }

    /// Where the uncommitted row for the key stands, if there is one.
    fn position_of_holder(&self, caller: UserId, key: &IdempotencyKey) -> (found: Option<usize>)
        ensures
            match found {
                Some(i) => i < self.in_flight.len() && self@.in_flight[i as int].claim
                    == claim_key(caller, *key),
                None => !self@.is_held(claim_key(caller, *key)),
            },
    {
        let mut i: usize = 0;
        while i < self.in_flight.len()
            invariant
                i <= self.in_flight.len(),
                forall|j: int| 0 <= j < i ==> (#[trigger] self@.in_flight[j]).claim != claim_key(
                    caller,
                    *key,
                ),
            decreases self.in_flight.len() - i,
        {
            let held = &self.in_flight[i];
            assert(self@.in_flight[i as int] == held@);
            if held.caller.0 == caller.0 && key.has_text(&held.key) {
                assert(held@.claim =~= claim_key(caller, *key));
                return Some(i);
            }
            i = i + 1;
        }
        None
    }

    /// Where the uncommitted row of the transaction stands, if it is open.
    fn position_of_transaction(&self, transaction: u64) -> (found: Option<usize>)
        ensures
            match found {
                Some(i) => i < self.in_flight.len() && self@.in_flight[i as int].transaction
                    == transaction,
                None => !self@.is_open(transaction),
            },
    {
        let mut i: usize = 0;
        while i < self.in_flight.len()
            invariant
                i <= self.in_flight.len(),
                forall|j: int| 0 <= j < i ==> (#[trigger] self@.in_flight[j]).transaction
                    != transaction,
            decreases self.in_flight.len() - i,
        {
            let held = &self.in_flight[i];
            assert(self@.in_flight[i as int] == held@);
            if held.transaction == transaction {
                return Some(i);
            }
            i = i + 1;
        }
        None
    }

    /// What the ledger holds for the key.
    pub fn ledger_entry(&self, caller: UserId, key: &IdempotencyKey) -> (entry: LedgerEntry)
        requires
            self.wf(),
        ensures
            match entry {
                LedgerEntry::Absent => self@.ledger_state(claim_key(caller, *key))
                    == LedgerState::Absent,
                LedgerEntry::InFlight(transaction) => self@.ledger_state(claim_key(caller, *key))
                    == (LedgerState::InFlight { transaction }),
                LedgerEntry::Completed(snapshot) => self@.ledger_state(claim_key(caller, *key))
                    == (LedgerState::Completed { snapshot: snapshot@ }),
            },
    {
        match self.position_of_record(caller, key) {
            Some(i) => {
                proof {
                    lemma_ledger_index_is_unique(self@, i as int);
                }
                let record = &self.ledger[i];
                assert(self@.ledger[i as int] == record@);
                LedgerEntry::Completed(copy_snapshot(&record.snapshot))
            },
            None => match self.position_of_holder(caller, key) {
                Some(i) => {
                    proof {
                        lemma_slot_is_unique(self@, i as int);
                    }
                    let held = &self.in_flight[i];
                    assert(self@.in_flight[i as int] == held@);
                    LedgerEntry::InFlight(held.transaction)
                },
                None => LedgerEntry::Absent,
            },
        }
    }

    /// Whether the transaction is open and holds the row for this key.
    pub fn holds_claim(&self, transaction: &Transaction, caller: UserId, key: &IdempotencyKey) -> (
        held: bool
    )
        requires
            self.wf(),
        ensures
            held == self@.holds(transaction@, claim_key(caller, *key)),
    {
        match self.position_of_transaction(transaction.id) {
            None => false,
            Some(i) => {
                proof {
                    lemma_slot_is_unique(self@, i as int);
                }
                let held = &self.in_flight[i];
                assert(self@.in_flight[i as int] == held@);
                let same = held.caller.0 == caller.0 && key.has_text(&held.key);
                proof {
                    if same {
                        assert(held@.claim =~= claim_key(caller, *key));
                    }
                }
                same
            },
        }
    }

    /// Whether the store can still open a transaction.
    pub fn has_transaction_left(&self) -> (left: bool)
        ensures
            left == (self@.next_transaction < u64::MAX),
    {
        self.next_transaction < u64::MAX
    }

    /// How many transactions are open.
    pub fn open_transactions(&self) -> (n: usize)
        ensures
            n == self@.in_flight.len(),
    {
        self.in_flight.len()
    }

    /// How many committed rows the ledger has.
    pub fn ledger_rows(&self) -> (n: usize)
        ensures
            n == self@.ledger.len(),
    {
        self.ledger.len()
    }

    /// The committed issues, in the order in which they were committed.
    pub fn issues(&self) -> (issues: &Vec<NewsletterIssue>)
        ensures
            views(issues@) == self@.issues,
    {
        &self.issues
    }

    /// The committed outbox rows, in the order in which they were committed.
    pub fn outbox(&self) -> (outbox: &Vec<OutboxEntry>)
        ensures
            views(outbox@) == self@.outbox,
    {
        &self.outbox
    }

    /// The subscriptions, in the order in which they were added.
    pub fn subscribers(&self) -> (subscribers: &Vec<Subscriber>)
        ensures
            views(subscribers@) == self@.subscribers,
    {
        &self.subscribers
    }

    /// Opens a transaction and inserts in it the uncommitted row for a free key.
    pub(crate) fn open_claim(&mut self, caller: UserId, key: &IdempotencyKey, now: i64) -> (
        transaction: Transaction
    )
        requires
            old(self).wf(),
            old(self)@.ledger_state(claim_key(caller, *key)) == LedgerState::Absent,
            old(self)@.next_transaction < u64::MAX,
        ensures
            final(self).wf(),
            final(self)@ == old(self)@.claim(claim_key(caller, *key), now),
            transaction@ == old(self)@.next_transaction,
            final(self)@.holds(transaction@, claim_key(caller, *key)),
    {
        let id = self.next_transaction;
        proof {
            lemma_claim_preserves_wf(self@, claim_key(caller, *key), now);
        }
        let claim = Claim {
            transaction: id,
            caller,
            key: key.to_text(),
            created_at: now,
            issues: Vec::new(),
            deliveries: Vec::new(),
        };
        proof {
            lemma_views_push(self.in_flight@, claim);
            assert(claim@.issues =~= Seq::empty());
            assert(claim@.deliveries =~= Seq::empty());
            assert(claim@.claim =~= claim_key(caller, *key));
        }
        self.in_flight.push(claim);
        self.next_transaction = id + 1;
        Transaction { id }
    }

    /// Attaches the snapshot to the transaction's row and commits: the row
    /// and everything staged under it become visible to all.
    pub(crate) fn commit(&mut self, transaction: Transaction, snapshot: ResponseSnapshot)
        requires
            old(self).wf(),
            old(self)@.is_open(transaction@),
            decode_spec(snapshot@) is Ok,
        ensures
            final(self).wf(),
            final(self)@ == old(self)@.commit(transaction@, snapshot@),
    {
        let found = self.position_of_transaction(transaction.id);
        let i = found.unwrap();
        proof {
            lemma_slot_is_unique(self@, i as int);
            lemma_commit_preserves_wf(self@, transaction@, snapshot@);
            lemma_views_remove(self.in_flight@, i as int);
        }
        let ghost before = self@;
        let ghost old_issues = self.issues@;
        let ghost old_outbox = self.outbox@;
        let mut claim = self.in_flight.remove(i);
        assert(claim@ == before.pending(transaction@));
        let ghost staged_issues = claim.issues@;
        let ghost staged_deliveries = claim.deliveries@;
        self.issues.append(&mut claim.issues);
        self.outbox.append(&mut claim.deliveries);
        let record = LedgerRecord {
            caller: claim.caller,
            key: claim.key,
            created_at: claim.created_at,
            snapshot,
        };
        proof {
            lemma_views_push(self.ledger@, record);
            assert(views(old_issues + staged_issues) =~= views(old_issues) + views(staged_issues));
            assert(views(old_outbox + staged_deliveries) =~= views(old_outbox) + views(
                staged_deliveries,
            ));
        }
        self.ledger.push(record);
    }

    /// Rolls the transaction back: its row and everything staged under it
    /// are discarded. A transaction that is not open here is let go as it is.
    pub fn rollback(&mut self, transaction: Transaction)
        requires
            old(self).wf(),
        ensures
            final(self).wf(),
            final(self)@ == old(self)@.rollback(transaction@),
            final(self)@ == old(self)@.apply(Step::Rollback { transaction: transaction@ }),
    {
        proof {
            lemma_rollback_preserves_wf(self@, transaction@);
        }
        match self.position_of_transaction(transaction.id) {
            None => {},
            Some(i) => {
                proof {
                    lemma_slot_is_unique(self@, i as int);
                    lemma_views_remove(self.in_flight@, i as int);
                }
                let _ = self.in_flight.remove(i);
            },
        }
    }
}

impl Store {
    /// Whether a committed issue has this id.
    fn has_issue(&self, id: u128) -> (found: bool)
        ensures
            found == self@.has_issue(id),
    {
        match position_of_issue(&self.issues, id) {
            Some(i) => {
                assert(self@.issues[i as int].id == id);
                true
            },
            None => {
                assert forall|i: int| 0 <= i < self@.issues.len() implies (
                #[trigger] self@.issues[i]).id != id by {
                    assert(self.issues@[i].id != id);
                }
                false
            },
        }
    }

    /// Whether some open transaction has staged an issue with this id.
    fn has_staged_issue(&self, id: u128) -> (found: bool)
        ensures
            found == self@.has_staged_issue(id),
    {
        let mut t: usize = 0;
        while t < self.in_flight.len()
            invariant
                t <= self.in_flight.len(),
                forall|u: int| 0 <= u < t ==> !(#[trigger] self@.in_flight[u]).stages_issue(id),
            decreases self.in_flight.len() - t,
        {
            let held = &self.in_flight[t];
            assert(self@.in_flight[t as int] == held@);
            match position_of_issue(&held.issues, id) {
                Some(i) => {
                    assert(held@.issues[i as int].id == id);
                    return true;
                },
                None => {
                    assert forall|i: int| 0 <= i < held@.issues.len() implies (
                    #[trigger] held@.issues[i]).id != id by {
                        assert(held.issues@[i].id != id);
                    }
                },
            }
            t = t + 1;
        }
        false
    }

    /// Inserts an issue under the transaction. Nothing is visible to others
    /// until the transaction commits.
    ///
    /// Refused, with the store unchanged, when the transaction is not open
    /// here or when the id is taken by an issue that is committed or staged.
    pub fn stage_issue(&mut self, transaction: &Transaction, issue: NewsletterIssue) -> (result:
        Result<(), PersistenceError>)
        requires
            old(self).wf(),
        ensures
            final(self).wf(),
            final(self)@ == old(self)@.apply(
                Step::StoreIssue { transaction: transaction@, issue: issue@ },
            ),
            match result {
                Ok(()) => {
                    &&& old(self)@.is_open(transaction@)
                    &&& !old(self)@.issue_id_taken(issue.id)
                    &&& final(self)@ == old(self)@.stage_issue(transaction@, issue@)
                },
                Err(e) => {
                    &&& final(self)@ == old(self)@
                    &&& e == (if !old(self)@.is_open(transaction@) {
                        PersistenceError::TransactionClosed
                    } else {
                        PersistenceError::DuplicateIssue
                    })
                    &&& !old(self)@.is_open(transaction@) || old(self)@.issue_id_taken(issue.id)
                },
            },
    {
        let i = match self.position_of_transaction(transaction.id) {
            None => {
                return Err(PersistenceError::TransactionClosed);
            },
            Some(i) => i,
        };
        if self.has_issue(issue.id) || self.has_staged_issue(issue.id) {
            return Err(PersistenceError::DuplicateIssue);
        }
        proof {
            lemma_slot_is_unique(self@, i as int);
            lemma_stage_issue_preserves_wf(self@, transaction@, issue@);
        }
        let ghost before = self.in_flight@;
        let mut claim = self.in_flight.remove(i);
        proof {
            lemma_views_push(claim.issues@, issue);
        }
        claim.issues.push(issue);
        proof {
            assert(before.remove(i as int).insert(i as int, claim) =~= before.update(
                i as int,
                claim,
            ));
            lemma_views_update(before, i as int, claim);
        }
        self.in_flight.insert(i, claim);
        Ok(())
    }

    /// One outbox row for each confirmed subscriber, in table order.
    fn rows_for_confirmed(&self, issue_id: u128) -> (rows: Vec<OutboxEntry>)
        ensures
            views(rows@) == deliveries_to_confirmed(self@.subscribers, issue_id),
    {
        let mut rows: Vec<OutboxEntry> = Vec::new();
        let mut i: usize = 0;
        let ghost all = self@.subscribers;
        assert(all.subrange(0, 0) =~= Seq::<SubscriberView>::empty());
        assert(views(rows@) =~= Seq::<DeliveryView>::empty());
        while i < self.subscribers.len()
            invariant
                i <= self.subscribers.len(),
                all == self@.subscribers,
                all.len() == self.subscribers.len(),
                views(rows@) == deliveries_to_confirmed(all.subrange(0, i as int), issue_id),
            decreases self.subscribers.len() - i,
        {
            let subscriber = &self.subscribers[i];
            proof {
                assert(all[i as int] == subscriber@);
                assert(all.subrange(0, i + 1).drop_last() =~= all.subrange(0, i as int));
                assert(all.subrange(0, i + 1).last() == all[i as int]);
            }
            if subscriber.confirmed {
                let row = OutboxEntry { issue_id, recipient: subscriber.email.clone() };
                proof {
                    lemma_views_push(rows@, row);
                }
                rows.push(row);
            }
            i = i + 1;
        }
        assert(all.subrange(0, all.len() as int) =~= all);
        rows
    }

    /// Enqueues, in one step, a delivery of the issue to every subscriber
    /// that is confirmed now, and says how many rows that made.
    ///
    /// Refused, with the store unchanged, when the transaction is not open
    /// here, or when there are deliveries to make and the transaction cannot
    /// see the issue that they would refer to.
    pub fn stage_deliveries(&mut self, transaction: &Transaction, issue_id: u128) -> (result:
        Result<usize, PersistenceError>)
        requires
            old(self).wf(),
        ensures
            final(self).wf(),
            final(self)@ == old(self)@.apply(Step::Enqueue { transaction: transaction@, issue_id }),
            match result {
                Ok(rows) => {
                    &&& old(self)@.is_open(transaction@)
                    &&& old(self)@.can_enqueue(transaction@, issue_id)
                    &&& final(self)@ == old(self)@.stage_deliveries(transaction@, issue_id)
                    &&& rows == deliveries_to_confirmed(old(self)@.subscribers, issue_id).len()
                },
                Err(e) => {
                    &&& final(self)@ == old(self)@
                    &&& e == (if !old(self)@.is_open(transaction@) {
                        PersistenceError::TransactionClosed
                    } else {
                        PersistenceError::UnknownIssue
                    })
                    &&& !old(self)@.is_open(transaction@) || !old(self)@.can_enqueue(
                        transaction@,
                        issue_id,
                    )
                },
            },
    {
        let i = match self.position_of_transaction(transaction.id) {
            None => {
                return Err(PersistenceError::TransactionClosed);
            },
            Some(i) => i,
        };
        proof {
            lemma_slot_is_unique(self@, i as int);
        }
        let held = &self.in_flight[i];
        assert(self@.in_flight[i as int] == held@);
        let staged = match position_of_issue(&held.issues, issue_id) {
            Some(k) => {
                assert(held@.issues[k as int].id == issue_id);
                true
            },
            None => {
                assert forall|k: int| 0 <= k < held@.issues.len() implies (
                #[trigger] held@.issues[k]).id != issue_id by {
                    assert(held.issues@[k].id != issue_id);
                }
                false
            },
        };
        let mut rows = self.rows_for_confirmed(issue_id);
        let made = rows.len();
        proof {
            lemma_deliveries_to_confirmed(self@.subscribers, issue_id);
        }
        if made > 0 && !staged && !self.has_issue(issue_id) {
            return Err(PersistenceError::UnknownIssue);
        }
        proof {
            lemma_stage_deliveries_preserves_wf(self@, transaction@, issue_id);
        }
        let ghost before = self.in_flight@;
        let ghost added = rows@;
        let mut claim = self.in_flight.remove(i);
        let ghost had = claim.deliveries@;
        claim.deliveries.append(&mut rows);
        proof {
            assert(views(had + added) =~= views(had) + views(added));
            assert(before.remove(i as int).insert(i as int, claim) =~= before.update(
                i as int,
                claim,
            ));
            lemma_views_update(before, i as int, claim);
        }
        self.in_flight.insert(i, claim);
        Ok(made)
    }

    /// Adds a subscription, not yet confirmed.
    ///
    /// Refused, with the store unchanged, when a subscription with this id
    /// or this address exists already.
    pub fn add_subscriber(&mut self, id: u128, email: String, name: String, now: i64) -> (result:
        Result<(), PersistenceError>)
        requires
            old(self).wf(),
        ensures
            final(self).wf(),
            final(self)@ == old(self)@.apply(
                Step::Subscribe {
                    subscriber: SubscriberView {
                        id,
                        email: email@,
                        name: name@,
                        subscribed_at: now,
                        confirmed: false,
                    },
                },
            ),
            match result {
                Ok(()) => {
                    &&& !old(self)@.has_subscriber(id, email@)
                    &&& final(self)@ == old(self)@.subscribe(
                        SubscriberView {
                            id,
                            email: email@,
                            name: name@,
                            subscribed_at: now,
                            confirmed: false,
                        },
                    )
                },
                Err(e) => {
                    &&& old(self)@.has_subscriber(id, email@)
                    &&& final(self)@ == old(self)@
                    &&& e == PersistenceError::DuplicateSubscriber
                },
            },
    {
        let mut i: usize = 0;
        while i < self.subscribers.len()
            invariant
                i <= self.subscribers.len(),
                self.wf(),
                self@ == old(self)@,
                forall|j: int|
                    0 <= j < i ==> (#[trigger] self@.subscribers[j]).id != id
                        && self@.subscribers[j].email != email@,
            decreases self.subscribers.len() - i,
        {
            let subscriber = &self.subscribers[i];
            assert(self@.subscribers[i as int] == subscriber@);
            if subscriber.id == id || subscriber.email == email {
                return Err(PersistenceError::DuplicateSubscriber);
            }
            i = i + 1;
        }
        let subscriber = Subscriber { id, email, name, subscribed_at: now, confirmed: false };
        proof {
            lemma_views_push(self.subscribers@, subscriber);
            lemma_subscriptions_preserve_wf(self@, self@.subscribers.push(subscriber@));
        }
        self.subscribers.push(subscriber);
        Ok(())
    }

    /// Confirms the subscription with this id.
    ///
    /// Refused, with the store unchanged, when there is none.
    pub fn confirm_subscription(&mut self, id: u128) -> (result: Result<(), PersistenceError>)
        requires
            old(self).wf(),
        ensures
            final(self).wf(),
            final(self)@ == old(self)@.apply(Step::Confirm { id }),
            match result {
                Ok(()) => {
                    &&& old(self)@.has_subscriber_id(id)
                    &&& final(self)@ == old(self)@.confirm(id)
                },
                Err(e) => {
                    &&& !old(self)@.has_subscriber_id(id)
                    &&& final(self)@ == old(self)@
                    &&& e == PersistenceError::UnknownSubscriber
                },
            },
    {
        let ghost before = self@;
        let mut found = false;
        let mut i: usize = 0;
        while i < self.subscribers.len()
            invariant
                i <= self.subscribers.len(),
                self.subscribers.len() == before.subscribers.len(),
                self@ == (StoreView { subscribers: self@.subscribers, ..before }),
                forall|j: int|
                    0 <= j < i ==> (#[trigger] self@.subscribers[j]) == confirm_in(
                        before.subscribers,
                        id,
                    )[j],
                forall|j: int|
                    i <= j < self.subscribers.len() ==> (#[trigger] self@.subscribers[j])
                        == before.subscribers[j],
                found == exists|j: int| 0 <= j < i && (#[trigger] before.subscribers[j]).id == id,
            decreases self.subscribers.len() - i,
        {
            assert(self@.subscribers[i as int] == self.subscribers@[i as int]@);
            if self.subscribers[i].id == id {
                let ghost rows = self.subscribers@;
                let mut subscriber = self.subscribers.remove(i);
                subscriber.confirmed = true;
                proof {
                    assert(rows.remove(i as int).insert(i as int, subscriber) =~= rows.update(
                        i as int,
                        subscriber,
                    ));
                    lemma_views_update(rows, i as int, subscriber);
                }
                self.subscribers.insert(i, subscriber);
                found = true;
                assert(before.subscribers[i as int].id == id);
            }
            i = i + 1;
        }
        if found {
            proof {
                assert(self@.subscribers =~= confirm_in(before.subscribers, id));
                lemma_subscriptions_preserve_wf(before, self@.subscribers);
            }
            Ok(())
        } else {
            proof {
                assert(self@.subscribers =~= before.subscribers);
            }
            Err(PersistenceError::UnknownSubscriber)
        }
    }
}


} // verus!
