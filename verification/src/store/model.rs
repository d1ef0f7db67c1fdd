//! The state of the store as mathematics, and its transitions.
//!
//! A ledger row exists from the moment its key is claimed. While the claiming
//! transaction is open the row is uncommitted and has no snapshot: it is a
//! `PendingClaim`, together with the writes that the transaction has staged.
//! Committing turns it into a `LedgerRow` with its snapshot and publishes the
//! staged writes; rolling back removes it and them.

use crate::idempotency::snapshot::decode_spec;
use crate::idempotency::snapshot::SnapshotView;
use vstd::prelude::*;

verus! {

/// What a ledger row is keyed by: the caller and the key it supplied.
pub struct ClaimKey {
    pub caller: u128,
    pub key: Seq<char>,
}

/// A committed ledger row. Its snapshot is never rewritten.
pub struct LedgerRow {
    pub claim: ClaimKey,
    pub created_at: i64,
    pub snapshot: SnapshotView,
}

/// A newsletter issue.
pub struct IssueView {
    pub id: u128,
    pub title: Seq<char>,
    pub text_content: Seq<char>,
    pub html_content: Seq<char>,
    pub published_at: i64,
}

/// One unit of delivery work: send this issue to this address.
pub struct DeliveryView {
    pub issue_id: u128,
    pub recipient: Seq<char>,
}

/// An uncommitted ledger row with the writes staged under it.
pub struct PendingClaim {
    pub transaction: u64,
    pub claim: ClaimKey,
    pub created_at: i64,
    pub issues: Seq<IssueView>,
    pub deliveries: Seq<DeliveryView>,
}

/// A subscription.
pub struct SubscriberView {
    pub id: u128,
    pub email: Seq<char>,
    pub name: Seq<char>,
    pub subscribed_at: i64,
    pub confirmed: bool,
}

/// What the ledger holds for a key.
pub enum LedgerState {
    /// No row: the key is free.
    Absent,
    /// An uncommitted row, held by an open transaction.
    InFlight { transaction: u64 },
    /// A committed row with its snapshot.
    Completed { snapshot: SnapshotView },
}

/// The whole state of the store.
pub struct StoreView {
    pub ledger: Seq<LedgerRow>,
    pub in_flight: Seq<PendingClaim>,
    pub issues: Seq<IssueView>,
    pub outbox: Seq<DeliveryView>,
    pub subscribers: Seq<SubscriberView>,
    pub next_transaction: nat,
}

/// The views of a sequence of values, in order.
pub open spec fn views<T: View>(items: Seq<T>) -> Seq<T::V> {
    Seq::new(items.len(), |i: int| items[i]@)
}

/// The views of a sequence with one more value are the views with one more view.
pub proof fn lemma_views_push<T: View>(items: Seq<T>, item: T)
    ensures
        views(items.push(item)) == views(items).push(item@),
{
    assert(views(items.push(item)) =~= views(items).push(item@));
}

/// The views of a sequence without one value are the views without its view.
pub proof fn lemma_views_remove<T: View>(items: Seq<T>, i: int)
    requires
        0 <= i < items.len(),
    ensures
        views(items.remove(i)) == views(items).remove(i),
{
    assert(views(items.remove(i)) =~= views(items).remove(i));
}

/// The views of a sequence with one value replaced are the views with its view replaced.
pub proof fn lemma_views_update<T: View>(items: Seq<T>, i: int, item: T)
    requires
        0 <= i < items.len(),
    ensures
        views(items.update(i, item)) == views(items).update(i, item@),
{
    assert(views(items.update(i, item)) =~= views(items).update(i, item@));
}

/// One delivery of `issue_id` for each confirmed subscriber, in table order.
pub open spec fn deliveries_to_confirmed(
    subscribers: Seq<SubscriberView>,
    issue_id: u128,
) -> Seq<DeliveryView>
    decreases subscribers.len(),
{
    if subscribers.len() == 0 {
        Seq::<DeliveryView>::empty()
    } else {
        let earlier = deliveries_to_confirmed(subscribers.drop_last(), issue_id);
        if subscribers.last().confirmed {
            earlier.push(DeliveryView { issue_id, recipient: subscribers.last().email })
        } else {
            earlier
        }
    }
}

/// How many subscribers are confirmed.
pub open spec fn confirmed_count(subscribers: Seq<SubscriberView>) -> nat
    decreases subscribers.len(),
{
    if subscribers.len() == 0 {
        0
    } else {
        confirmed_count(subscribers.drop_last()) + if subscribers.last().confirmed {
            1nat
        } else {
            0nat
        }
    }
}

/// The rows of a delivery table that refer to one issue, in table order.
pub open spec fn deliveries_of(rows: Seq<DeliveryView>, issue_id: u128) -> Seq<DeliveryView>
    decreases rows.len(),
{
    if rows.len() == 0 {
        Seq::<DeliveryView>::empty()
    } else {
        let earlier = deliveries_of(rows.drop_last(), issue_id);
        if rows.last().issue_id == issue_id {
            earlier.push(rows.last())
        } else {
            earlier
        }
    }
}

/// The subscribers after every subscription with this id has been confirmed.
pub open spec fn confirm_in(subscribers: Seq<SubscriberView>, id: u128) -> Seq<SubscriberView> {
    Seq::new(
        subscribers.len(),
        |i: int|
            if subscribers[i].id == id {
                SubscriberView { confirmed: true, ..subscribers[i] }
            } else {
                subscribers[i]
            },
    )
}

impl PendingClaim {
    /// Whether this transaction has staged an issue with this id.
    pub open spec fn stages_issue(self, id: u128) -> bool {
        exists|i: int| 0 <= i < self.issues.len() && (#[trigger] self.issues[i]).id == id
    }
}

impl StoreView {
    /// The state of a store that holds nothing.
    pub open spec fn empty() -> StoreView {
        StoreView {
            ledger: Seq::empty(),
            in_flight: Seq::empty(),
            issues: Seq::empty(),
            outbox: Seq::empty(),
            subscribers: Seq::empty(),
            next_transaction: 0,
        }
    }

    /// Whether a committed row exists for the key.
    pub open spec fn is_completed(self, claim: ClaimKey) -> bool {
        exists|i: int| 0 <= i < self.ledger.len() && (#[trigger] self.ledger[i]).claim == claim
    }

    /// The position of the committed row for the key.
    pub open spec fn ledger_index(self, claim: ClaimKey) -> int {
        choose|i: int| 0 <= i < self.ledger.len() && (#[trigger] self.ledger[i]).claim == claim
    }

    /// Whether an open transaction holds an uncommitted row for the key.
    pub open spec fn is_held(self, claim: ClaimKey) -> bool {
        exists|i: int|
            0 <= i < self.in_flight.len() && (#[trigger] self.in_flight[i]).claim == claim
    }

    /// The position of the uncommitted row for the key.
    pub open spec fn holder_index(self, claim: ClaimKey) -> int {
        choose|i: int|
            0 <= i < self.in_flight.len() && (#[trigger] self.in_flight[i]).claim == claim
    }

    /// What the ledger holds for the key.
    pub open spec fn ledger_state(self, claim: ClaimKey) -> LedgerState {
        if self.is_completed(claim) {
            LedgerState::Completed { snapshot: self.ledger[self.ledger_index(claim)].snapshot }
        } else if self.is_held(claim) {
            LedgerState::InFlight {
                transaction: self.in_flight[self.holder_index(claim)].transaction,
            }
        } else {
            LedgerState::Absent
        }
    }

    /// Whether the transaction is open.
    pub open spec fn is_open(self, transaction: u64) -> bool {
        exists|i: int|
            0 <= i < self.in_flight.len() && (#[trigger] self.in_flight[i]).transaction
                == transaction
    }

    /// The position of an open transaction's uncommitted row.
    pub open spec fn slot(self, transaction: u64) -> int {
        choose|i: int|
            0 <= i < self.in_flight.len() && (#[trigger] self.in_flight[i]).transaction
                == transaction
    }

    /// An open transaction's uncommitted row and staged writes.
    pub open spec fn pending(self, transaction: u64) -> PendingClaim {
        self.in_flight[self.slot(transaction)]
    }

    /// Whether the transaction is open and holds the row for exactly this key.
    pub open spec fn holds(self, transaction: u64, claim: ClaimKey) -> bool {
        self.is_open(transaction) && self.pending(transaction).claim == claim
    }

    /// Whether a committed issue has this id.
    pub open spec fn has_issue(self, id: u128) -> bool {
        exists|i: int| 0 <= i < self.issues.len() && (#[trigger] self.issues[i]).id == id
    }

    /// Whether some open transaction has staged an issue with this id.
    pub open spec fn has_staged_issue(self, id: u128) -> bool {
        exists|t: int|
            0 <= t < self.in_flight.len() && (#[trigger] self.in_flight[t]).stages_issue(id)
    }

    /// Whether the id is taken, by a committed issue or by a staged one.
    pub open spec fn issue_id_taken(self, id: u128) -> bool {
        self.has_issue(id) || self.has_staged_issue(id)
    }

    /// Whether the transaction can refer to the issue: it is committed, or
    /// the transaction itself has staged it.
    pub open spec fn issue_visible(self, transaction: u64, id: u128) -> bool {
        self.has_issue(id) || self.pending(transaction).stages_issue(id)
    }

    /// Whether the transaction can enqueue the deliveries of the issue: it
    /// can refer to the issue, or no subscriber is confirmed, so that there
    /// is no delivery to enqueue and nothing that refers to anything.
    pub open spec fn can_enqueue(self, transaction: u64, id: u128) -> bool {
        self.issue_visible(transaction, id) || confirmed_count(self.subscribers) == 0
    }

    /// Whether a subscription with this id or this address exists.
    pub open spec fn has_subscriber(self, id: u128, email: Seq<char>) -> bool {
        exists|i: int|
            0 <= i < self.subscribers.len() && ((#[trigger] self.subscribers[i]).id == id
                || self.subscribers[i].email == email)
    }

    /// Whether a subscription with this id exists.
    pub open spec fn has_subscriber_id(self, id: u128) -> bool {
        exists|i: int| 0 <= i < self.subscribers.len() && (#[trigger] self.subscribers[i]).id == id
    }

    /// The invariant of the store.
    ///
    /// Transaction numbers are never reused; a key has at most one row,
    /// committed or not; every committed snapshot decodes; and every delivery
    /// row, committed or staged, refers to an issue that its transaction could
    /// see.
    pub open spec fn wf(self) -> bool {
        &&& self.next_transaction <= u64::MAX
        &&& forall|i: int|
            0 <= i < self.in_flight.len() ==> (#[trigger] self.in_flight[i]).transaction
                < self.next_transaction
        &&& forall|i: int, j: int|
            0 <= i < j < self.in_flight.len() ==> (#[trigger] self.in_flight[i]).transaction != (
            #[trigger] self.in_flight[j]).transaction
        &&& forall|i: int, j: int|
            0 <= i < j < self.in_flight.len() ==> (#[trigger] self.in_flight[i]).claim != (
            #[trigger] self.in_flight[j]).claim
        &&& forall|i: int, j: int|
            0 <= i < j < self.ledger.len() ==> (#[trigger] self.ledger[i]).claim != (
            #[trigger] self.ledger[j]).claim
        &&& forall|i: int, j: int|
            0 <= i < self.ledger.len() && 0 <= j < self.in_flight.len() ==> (
            #[trigger] self.ledger[i]).claim != (#[trigger] self.in_flight[j]).claim
        &&& forall|i: int|
            0 <= i < self.ledger.len() ==> decode_spec((#[trigger] self.ledger[i]).snapshot) is Ok
        &&& forall|i: int|
            0 <= i < self.outbox.len() ==> self.has_issue((#[trigger] self.outbox[i]).issue_id)
        &&& forall|t: int, i: int|
            0 <= t < self.in_flight.len() && 0 <= i < self.in_flight[t].deliveries.len() ==> {
                let id = (#[trigger] self.in_flight[t].deliveries[i]).issue_id;
                self.has_issue(id) || self.in_flight[t].stages_issue(id)
            }
    }

    /// The state after a transaction has been opened and has inserted the
    /// uncommitted row for the key.
    pub open spec fn claim(self, claim: ClaimKey, now: i64) -> StoreView {
        StoreView {
            in_flight: self.in_flight.push(
                PendingClaim {
                    transaction: self.next_transaction as u64,
                    claim,
                    created_at: now,
                    issues: Seq::empty(),
                    deliveries: Seq::empty(),
                },
            ),
            next_transaction: self.next_transaction + 1,
            ..self
        }
    }

    /// The state after the transaction has attached the snapshot to its row
    /// and committed: the row and everything staged under it become visible.
    pub open spec fn commit(self, transaction: u64, snapshot: SnapshotView) -> StoreView {
        let pending = self.pending(transaction);
        StoreView {
            ledger: self.ledger.push(
                LedgerRow { claim: pending.claim, created_at: pending.created_at, snapshot },
            ),
            in_flight: self.in_flight.remove(self.slot(transaction)),
            issues: self.issues + pending.issues,
            outbox: self.outbox + pending.deliveries,
            ..self
        }
    }

    /// The state after the transaction has been rolled back: its row and
    /// everything staged under it are gone. Rolling back a transaction that is
    /// not open changes nothing.
    pub open spec fn rollback(self, transaction: u64) -> StoreView {
        if self.is_open(transaction) {
            StoreView { in_flight: self.in_flight.remove(self.slot(transaction)), ..self }
        } else {
            self
        }
    }

    /// The state after the transaction has inserted an issue.
    pub open spec fn stage_issue(self, transaction: u64, issue: IssueView) -> StoreView {
        let pending = self.pending(transaction);
        StoreView {
            in_flight: self.in_flight.update(
                self.slot(transaction),
                PendingClaim { issues: pending.issues.push(issue), ..pending },
            ),
            ..self
        }
    }

    /// The state after the transaction has enqueued, in one step, a delivery
    /// of the issue to every subscriber that is confirmed at that moment.
    pub open spec fn stage_deliveries(self, transaction: u64, issue_id: u128) -> StoreView {
        let pending = self.pending(transaction);
        StoreView {
            in_flight: self.in_flight.update(
                self.slot(transaction),
                PendingClaim {
                    deliveries: pending.deliveries + deliveries_to_confirmed(
                        self.subscribers,
                        issue_id,
                    ),
                    ..pending
                },
            ),
            ..self
        }
    }

    /// The state while the transaction that claimed a free key is at work:
    /// the row is uncommitted, and this much is staged under it.
    pub open spec fn working(
        self,
        claim: ClaimKey,
        now: i64,
        issues: Seq<IssueView>,
        deliveries: Seq<DeliveryView>,
    ) -> StoreView {
        StoreView {
            in_flight: self.in_flight.push(
                PendingClaim {
                    transaction: self.next_transaction as u64,
                    claim,
                    created_at: now,
                    issues,
                    deliveries,
                },
            ),
            next_transaction: self.next_transaction + 1,
            ..self
        }
    }

    /// The state after a key was claimed and the claim rolled back: nothing
    /// is left of it but the transaction number that it used up.
    pub open spec fn abandoned(self) -> StoreView {
        StoreView { next_transaction: self.next_transaction + 1, ..self }
    }

    /// The state after an issue was published under a free key: the ledger
    /// row with its snapshot, the issue, and one delivery for each subscriber
    /// that was confirmed, all at once.
    pub open spec fn published(
        self,
        claim: ClaimKey,
        now: i64,
        issue: IssueView,
        snapshot: SnapshotView,
    ) -> StoreView {
        StoreView {
            ledger: self.ledger.push(LedgerRow { claim, created_at: now, snapshot }),
            issues: self.issues.push(issue),
            outbox: self.outbox + deliveries_to_confirmed(self.subscribers, issue.id),
            next_transaction: self.next_transaction + 1,
            ..self
        }
    }

    /// The state after a subscription has been added.
    pub open spec fn subscribe(self, subscriber: SubscriberView) -> StoreView {
        StoreView { subscribers: self.subscribers.push(subscriber), ..self }
    }

    /// The state after the subscription with this id has been confirmed.
    pub open spec fn confirm(self, id: u128) -> StoreView {
        StoreView { subscribers: confirm_in(self.subscribers, id), ..self }
    }
}

/// An open transaction has one uncommitted row: its position is determined.
pub proof fn lemma_slot_is_unique(s: StoreView, i: int)
    requires
        s.wf(),
        0 <= i < s.in_flight.len(),
    ensures
        s.is_open(s.in_flight[i].transaction),
        s.slot(s.in_flight[i].transaction) == i,
        s.pending(s.in_flight[i].transaction) == s.in_flight[i],
        s.is_held(s.in_flight[i].claim),
        s.holder_index(s.in_flight[i].claim) == i,
        !s.is_completed(s.in_flight[i].claim),
        s.ledger_state(s.in_flight[i].claim) == (LedgerState::InFlight {
            transaction: s.in_flight[i].transaction,
        }),
{
    let t = s.in_flight[i].transaction;
    let j = s.slot(t);
    assert(s.in_flight[j].transaction == t);
    assert(j == i) by {
        if j < i {
            assert(s.in_flight[j].transaction != s.in_flight[i].transaction);
        } else if i < j {
            assert(s.in_flight[i].transaction != s.in_flight[j].transaction);
        }
    }
    let c = s.in_flight[i].claim;
    let h = s.holder_index(c);
    assert(s.in_flight[h].claim == c);
    assert(h == i) by {
        if h < i {
            assert(s.in_flight[h].claim != s.in_flight[i].claim);
        } else if i < h {
            assert(s.in_flight[i].claim != s.in_flight[h].claim);
        }
    }
    if s.is_completed(c) {
        let k = s.ledger_index(c);
        assert(s.ledger[k].claim != s.in_flight[i].claim);
    }
}

/// A key has one committed row at most: its position is determined.
pub proof fn lemma_ledger_index_is_unique(s: StoreView, i: int)
    requires
        s.wf(),
        0 <= i < s.ledger.len(),
    ensures
        s.is_completed(s.ledger[i].claim),
        s.ledger_index(s.ledger[i].claim) == i,
        !s.is_held(s.ledger[i].claim),
        s.ledger_state(s.ledger[i].claim) == (LedgerState::Completed {
            snapshot: s.ledger[i].snapshot,
        }),
{
    let c = s.ledger[i].claim;
    let j = s.ledger_index(c);
    assert(s.ledger[j].claim == c);
    assert(j == i) by {
        if j < i {
            assert(s.ledger[j].claim != s.ledger[i].claim);
        } else if i < j {
            assert(s.ledger[i].claim != s.ledger[j].claim);
        }
    }
    if s.is_held(c) {
        let h = s.holder_index(c);
        assert(s.ledger[i].claim != s.in_flight[h].claim);
    }
}

/// The empty store is well formed and holds no row for any key.
pub proof fn lemma_empty_is_wf()
    ensures
        StoreView::empty().wf(),
        forall|claim: ClaimKey| StoreView::empty().ledger_state(claim) == LedgerState::Absent,
{
}

/// Whether an issue is committed depends on the issue table alone.
pub proof fn lemma_has_issue_depends_on_issues(a: StoreView, b: StoreView, id: u128)
    requires
        a.issues == b.issues,
    ensures
        a.has_issue(id) == b.has_issue(id),
{
    if a.has_issue(id) {
        let i = choose|i: int| 0 <= i < a.issues.len() && (#[trigger] a.issues[i]).id == id;
        assert(b.issues[i].id == id);
    }
    if b.has_issue(id) {
        let i = choose|i: int| 0 <= i < b.issues.len() && (#[trigger] b.issues[i]).id == id;
        assert(a.issues[i].id == id);
    }
}

/// Whether a transaction has staged an issue depends on its staged issues alone.
pub proof fn lemma_stages_issue_depends_on_issues(a: PendingClaim, b: PendingClaim, id: u128)
    requires
        a.issues == b.issues,
    ensures
        a.stages_issue(id) == b.stages_issue(id),
{
    if a.stages_issue(id) {
        let i = choose|i: int| 0 <= i < a.issues.len() && (#[trigger] a.issues[i]).id == id;
        assert(b.issues[i].id == id);
    }
    if b.stages_issue(id) {
        let i = choose|i: int| 0 <= i < b.issues.len() && (#[trigger] b.issues[i]).id == id;
        assert(a.issues[i].id == id);
    }
}

/// Claiming a free key keeps the store well formed, and the new transaction
/// then holds the key.
pub proof fn lemma_claim_preserves_wf(s: StoreView, claim: ClaimKey, now: i64)
    requires
        s.wf(),
        s.ledger_state(claim) == LedgerState::Absent,
        s.next_transaction < u64::MAX,
    ensures
        s.claim(claim, now).wf(),
        s.claim(claim, now).holds(s.next_transaction as u64, claim),
        s.claim(claim, now).ledger_state(claim) == (LedgerState::InFlight {
            transaction: s.next_transaction as u64,
        }),
{
    let after = s.claim(claim, now);
    let last = s.in_flight.len() as int;
    assert(after.in_flight.len() == last + 1);
    assert forall|i: int| 0 <= i < last implies after.in_flight[i] == s.in_flight[i] by {}
    assert(after.in_flight[last].claim == claim);
    assert(after.in_flight[last].transaction == s.next_transaction);
    assert forall|i: int, j: int| 0 <= i < j < after.in_flight.len() implies (
    #[trigger] after.in_flight[i]).transaction != (#[trigger] after.in_flight[j]).transaction by {
        if j == last {
            assert(s.in_flight[i].transaction < s.next_transaction);
        } else {
            assert(s.in_flight[i].transaction != s.in_flight[j].transaction);
        }
    }
    assert forall|i: int, j: int| 0 <= i < j < after.in_flight.len() implies (
    #[trigger] after.in_flight[i]).claim != (#[trigger] after.in_flight[j]).claim by {
        if j == last {
            if s.in_flight[i].claim == claim {
                assert(s.is_held(claim));
            }
        } else {
            assert(s.in_flight[i].claim != s.in_flight[j].claim);
        }
    }
    assert forall|i: int, j: int|
        0 <= i < after.ledger.len() && 0 <= j < after.in_flight.len() implies (
    #[trigger] after.ledger[i]).claim != (#[trigger] after.in_flight[j]).claim by {
        if j == last {
            if s.ledger[i].claim == claim {
                assert(s.is_completed(claim));
            }
        } else {
            assert(s.ledger[i].claim != s.in_flight[j].claim);
        }
    }
    assert forall|i: int| 0 <= i < after.in_flight.len() implies (
    #[trigger] after.in_flight[i]).transaction < after.next_transaction by {
        if i < last {
            assert(s.in_flight[i].transaction < s.next_transaction);
        }
    }
    assert forall|t: int, i: int|
        0 <= t < after.in_flight.len() && 0 <= i < after.in_flight[t].deliveries.len() implies {
        let id = (#[trigger] after.in_flight[t].deliveries[i]).issue_id;
        after.has_issue(id) || after.in_flight[t].stages_issue(id)
    } by {
        assert(t < last);
        assert(after.in_flight[t] == s.in_flight[t]);
        let id = s.in_flight[t].deliveries[i].issue_id;
        assert(s.has_issue(id) || s.in_flight[t].stages_issue(id));
        lemma_has_issue_depends_on_issues(s, after, id);
    }
    assert forall|i: int| 0 <= i < after.outbox.len() implies after.has_issue(
        (#[trigger] after.outbox[i]).issue_id,
    ) by {
        assert(s.has_issue(s.outbox[i].issue_id));
        lemma_has_issue_depends_on_issues(s, after, s.outbox[i].issue_id);
    }
    assert(after.wf());
    lemma_slot_is_unique(after, last);
}

/// Whatever was visible before a commit is visible after it, and so is what
/// the committing transaction had staged.
pub proof fn lemma_commit_publishes_issues(
    s: StoreView,
    transaction: u64,
    snapshot: SnapshotView,
    id: u128,
)
    requires
        s.has_issue(id) || s.pending(transaction).stages_issue(id),
    ensures
        s.commit(transaction, snapshot).has_issue(id),
{
    let after = s.commit(transaction, snapshot);
    let pending = s.pending(transaction);
    if s.has_issue(id) {
        let i = choose|i: int| 0 <= i < s.issues.len() && (#[trigger] s.issues[i]).id == id;
        assert(after.issues[i].id == id);
    } else {
        let i = choose|i: int| 0 <= i < pending.issues.len() && (#[trigger] pending.issues[i]).id
            == id;
        assert(after.issues[s.issues.len() + i] == pending.issues[i]);
        assert(after.issues[s.issues.len() + i].id == id);
    }
}

/// Committing an open transaction with a snapshot that decodes keeps the
/// store well formed, and completes the key that the transaction held.
pub proof fn lemma_commit_preserves_wf(s: StoreView, transaction: u64, snapshot: SnapshotView)
    requires
        s.wf(),
        s.is_open(transaction),
        decode_spec(snapshot) is Ok,
    ensures
        s.commit(transaction, snapshot).wf(),
        s.commit(transaction, snapshot).ledger_state(s.pending(transaction).claim) == (
        LedgerState::Completed { snapshot }),
        !s.commit(transaction, snapshot).is_open(transaction),
{
    let after = s.commit(transaction, snapshot);
    let k = s.slot(transaction);
    let pending = s.pending(transaction);
    let last = s.ledger.len() as int;
    lemma_slot_is_unique(s, k);
    assert forall|i: int| 0 <= i < after.in_flight.len() implies #[trigger] after.in_flight[i]
        == s.in_flight[if i < k {
        i
    } else {
        i + 1
    }] by {}
    assert forall|i: int| 0 <= i < last implies after.ledger[i] == s.ledger[i] by {}
    assert(after.ledger[last].claim == pending.claim);
    assert forall|i: int| 0 <= i < after.in_flight.len() implies (
    #[trigger] after.in_flight[i]).transaction < after.next_transaction by {
        let o = if i < k { i } else { i + 1 };
        assert(s.in_flight[o].transaction < s.next_transaction);
    }
    assert forall|i: int, j: int| 0 <= i < j < after.in_flight.len() implies (
    #[trigger] after.in_flight[i]).transaction != (#[trigger] after.in_flight[j]).transaction by {
        let oi = if i < k { i } else { i + 1 };
        let oj = if j < k { j } else { j + 1 };
        assert(s.in_flight[oi].transaction != s.in_flight[oj].transaction);
    }
    assert forall|i: int, j: int| 0 <= i < j < after.in_flight.len() implies (
    #[trigger] after.in_flight[i]).claim != (#[trigger] after.in_flight[j]).claim by {
        let oi = if i < k { i } else { i + 1 };
        let oj = if j < k { j } else { j + 1 };
        assert(s.in_flight[oi].claim != s.in_flight[oj].claim);
    }
    assert forall|i: int, j: int| 0 <= i < j < after.ledger.len() implies (
    #[trigger] after.ledger[i]).claim != (#[trigger] after.ledger[j]).claim by {
        if j == last {
            assert(s.ledger[i].claim != s.in_flight[k].claim);
        } else {
            assert(s.ledger[i].claim != s.ledger[j].claim);
        }
    }
    assert forall|i: int, j: int|
        0 <= i < after.ledger.len() && 0 <= j < after.in_flight.len() implies (
    #[trigger] after.ledger[i]).claim != (#[trigger] after.in_flight[j]).claim by {
        let oj = if j < k { j } else { j + 1 };
        if i == last {
            if oj < k {
                assert(s.in_flight[oj].claim != s.in_flight[k].claim);
            } else {
                assert(s.in_flight[k].claim != s.in_flight[oj].claim);
            }
        } else {
            assert(s.ledger[i].claim != s.in_flight[oj].claim);
        }
    }
    assert forall|i: int| 0 <= i < after.ledger.len() implies decode_spec(
        (#[trigger] after.ledger[i]).snapshot,
    ) is Ok by {
        if i < last {
            assert(decode_spec(s.ledger[i].snapshot) is Ok);
        }
    }
    assert forall|i: int| 0 <= i < after.outbox.len() implies after.has_issue(
        (#[trigger] after.outbox[i]).issue_id,
    ) by {
        if i < s.outbox.len() {
            assert(s.has_issue(s.outbox[i].issue_id));
            lemma_commit_publishes_issues(s, transaction, snapshot, s.outbox[i].issue_id);
        } else {
            let d = i - s.outbox.len();
            assert(after.outbox[i] == pending.deliveries[d]);
            let id = s.in_flight[k].deliveries[d].issue_id;
            assert(s.has_issue(id) || s.in_flight[k].stages_issue(id));
            lemma_commit_publishes_issues(s, transaction, snapshot, id);
        }
    }
    assert forall|t: int, i: int|
        0 <= t < after.in_flight.len() && 0 <= i < after.in_flight[t].deliveries.len() implies {
        let id = (#[trigger] after.in_flight[t].deliveries[i]).issue_id;
        after.has_issue(id) || after.in_flight[t].stages_issue(id)
    } by {
        let ot = if t < k { t } else { t + 1 };
        assert(after.in_flight[t] == s.in_flight[ot]);
        let id = s.in_flight[ot].deliveries[i].issue_id;
        assert(s.has_issue(id) || s.in_flight[ot].stages_issue(id));
        if s.has_issue(id) {
            lemma_commit_publishes_issues(s, transaction, snapshot, id);
        }
    }
    assert(after.wf());
    lemma_ledger_index_is_unique(after, last);
    if after.is_open(transaction) {
        let j = after.slot(transaction);
        let oj = if j < k { j } else { j + 1 };
        assert(after.in_flight[j] == s.in_flight[oj]);
        if oj < k {
            assert(s.in_flight[oj].transaction != s.in_flight[k].transaction);
        } else {
            assert(s.in_flight[k].transaction != s.in_flight[oj].transaction);
        }
    }
}

/// Rolling a transaction back keeps the store well formed and frees the key
/// that the transaction held.
pub proof fn lemma_rollback_preserves_wf(s: StoreView, transaction: u64)
    requires
        s.wf(),
    ensures
        s.rollback(transaction).wf(),
        !s.rollback(transaction).is_open(transaction),
        s.is_open(transaction) ==> s.rollback(transaction).ledger_state(
            s.pending(transaction).claim,
        ) == LedgerState::Absent,
{
    if s.is_open(transaction) {
        let after = s.rollback(transaction);
        let k = s.slot(transaction);
        let claim = s.pending(transaction).claim;
        lemma_slot_is_unique(s, k);
        assert forall|i: int| 0 <= i < after.in_flight.len() implies #[trigger] after.in_flight[i]
            == s.in_flight[if i < k {
            i
        } else {
            i + 1
        }] by {}
        assert forall|i: int| 0 <= i < after.in_flight.len() implies (
        #[trigger] after.in_flight[i]).transaction < after.next_transaction by {
            let o = if i < k { i } else { i + 1 };
            assert(s.in_flight[o].transaction < s.next_transaction);
        }
        assert forall|i: int, j: int| 0 <= i < j < after.in_flight.len() implies (
        #[trigger] after.in_flight[i]).transaction != (
        #[trigger] after.in_flight[j]).transaction by {
            let oi = if i < k { i } else { i + 1 };
            let oj = if j < k { j } else { j + 1 };
            assert(s.in_flight[oi].transaction != s.in_flight[oj].transaction);
        }
        assert forall|i: int, j: int| 0 <= i < j < after.in_flight.len() implies (
        #[trigger] after.in_flight[i]).claim != (#[trigger] after.in_flight[j]).claim by {
            let oi = if i < k { i } else { i + 1 };
            let oj = if j < k { j } else { j + 1 };
            assert(s.in_flight[oi].claim != s.in_flight[oj].claim);
        }
        assert forall|i: int, j: int|
            0 <= i < after.ledger.len() && 0 <= j < after.in_flight.len() implies (
        #[trigger] after.ledger[i]).claim != (#[trigger] after.in_flight[j]).claim by {
            let oj = if j < k { j } else { j + 1 };
            assert(s.ledger[i].claim != s.in_flight[oj].claim);
        }
        assert forall|i: int| 0 <= i < after.outbox.len() implies after.has_issue(
            (#[trigger] after.outbox[i]).issue_id,
        ) by {
            assert(s.has_issue(s.outbox[i].issue_id));
            lemma_has_issue_depends_on_issues(s, after, s.outbox[i].issue_id);
        }
        assert forall|t: int, i: int|
            0 <= t < after.in_flight.len() && 0 <= i < after.in_flight[t].deliveries.len() implies {
            let id = (#[trigger] after.in_flight[t].deliveries[i]).issue_id;
            after.has_issue(id) || after.in_flight[t].stages_issue(id)
        } by {
            let ot = if t < k { t } else { t + 1 };
            assert(after.in_flight[t] == s.in_flight[ot]);
            let id = s.in_flight[ot].deliveries[i].issue_id;
            assert(s.has_issue(id) || s.in_flight[ot].stages_issue(id));
            lemma_has_issue_depends_on_issues(s, after, id);
        }
        assert(after.wf());
        if after.is_open(transaction) {
            let j = after.slot(transaction);
            let oj = if j < k { j } else { j + 1 };
            assert(after.in_flight[j] == s.in_flight[oj]);
            if oj < k {
                assert(s.in_flight[oj].transaction != s.in_flight[k].transaction);
            } else {
                assert(s.in_flight[k].transaction != s.in_flight[oj].transaction);
            }
        }
        if after.is_held(claim) {
            let j = after.holder_index(claim);
            let oj = if j < k { j } else { j + 1 };
            assert(after.in_flight[j] == s.in_flight[oj]);
            if oj < k {
                assert(s.in_flight[oj].claim != s.in_flight[k].claim);
            } else {
                assert(s.in_flight[k].claim != s.in_flight[oj].claim);
            }
        }
        if after.is_completed(claim) {
            let j = after.ledger_index(claim);
            assert(s.ledger[j].claim != s.in_flight[k].claim);
        }
    }
}

/// Changing what one open transaction has staged, without taking an issue
/// away and with every new delivery referring to a visible issue, keeps the
/// store well formed.
pub proof fn lemma_restage_preserves_wf(s: StoreView, transaction: u64, staged: PendingClaim)
    requires
        s.wf(),
        s.is_open(transaction),
        staged.transaction == transaction,
        staged.claim == s.pending(transaction).claim,
        forall|id: u128| s.pending(transaction).stages_issue(id) ==> staged.stages_issue(id),
        forall|i: int|
            0 <= i < staged.deliveries.len() ==> {
                let id = (#[trigger] staged.deliveries[i]).issue_id;
                s.has_issue(id) || staged.stages_issue(id)
            },
    ensures
        (StoreView { in_flight: s.in_flight.update(s.slot(transaction), staged), ..s }).wf(),
        (StoreView { in_flight: s.in_flight.update(s.slot(transaction), staged), ..s }).is_open(
            transaction,
        ),
        (StoreView { in_flight: s.in_flight.update(s.slot(transaction), staged), ..s }).pending(
            transaction,
        ) == staged,
{
    let k = s.slot(transaction);
    let after = StoreView { in_flight: s.in_flight.update(k, staged), ..s };
    lemma_slot_is_unique(s, k);
    assert forall|i: int| 0 <= i < after.in_flight.len() && i != k implies after.in_flight[i]
        == s.in_flight[i] by {}
    assert(after.in_flight[k] == staged);
    assert forall|i: int| 0 <= i < after.in_flight.len() implies (
    #[trigger] after.in_flight[i]).transaction < after.next_transaction by {
        assert(s.in_flight[i].transaction < s.next_transaction);
    }
    assert forall|i: int, j: int| 0 <= i < j < after.in_flight.len() implies (
    #[trigger] after.in_flight[i]).transaction != (#[trigger] after.in_flight[j]).transaction by {
        assert(s.in_flight[i].transaction != s.in_flight[j].transaction);
    }
    assert forall|i: int, j: int| 0 <= i < j < after.in_flight.len() implies (
    #[trigger] after.in_flight[i]).claim != (#[trigger] after.in_flight[j]).claim by {
        assert(s.in_flight[i].claim != s.in_flight[j].claim);
    }
    assert forall|i: int, j: int|
        0 <= i < after.ledger.len() && 0 <= j < after.in_flight.len() implies (
    #[trigger] after.ledger[i]).claim != (#[trigger] after.in_flight[j]).claim by {
        assert(s.ledger[i].claim != s.in_flight[j].claim);
    }
    assert forall|i: int| 0 <= i < after.outbox.len() implies after.has_issue(
        (#[trigger] after.outbox[i]).issue_id,
    ) by {
        assert(s.has_issue(s.outbox[i].issue_id));
        lemma_has_issue_depends_on_issues(s, after, s.outbox[i].issue_id);
    }
    assert forall|t: int, i: int|
        0 <= t < after.in_flight.len() && 0 <= i < after.in_flight[t].deliveries.len() implies {
        let id = (#[trigger] after.in_flight[t].deliveries[i]).issue_id;
        after.has_issue(id) || after.in_flight[t].stages_issue(id)
    } by {
        if t == k {
            let id = staged.deliveries[i].issue_id;
            assert(s.has_issue(id) || staged.stages_issue(id));
            lemma_has_issue_depends_on_issues(s, after, id);
        } else {
            assert(after.in_flight[t] == s.in_flight[t]);
            let id = s.in_flight[t].deliveries[i].issue_id;
            assert(s.has_issue(id) || s.in_flight[t].stages_issue(id));
            lemma_has_issue_depends_on_issues(s, after, id);
        }
    }
    assert(after.wf());
    lemma_slot_is_unique(after, k);
}

/// Every delivery made for the confirmed subscribers refers to the issue it
/// was made for, and there is one for each confirmed subscriber.
pub proof fn lemma_deliveries_to_confirmed(subscribers: Seq<SubscriberView>, issue_id: u128)
    ensures
        deliveries_to_confirmed(subscribers, issue_id).len() == confirmed_count(subscribers),
        forall|i: int|
            0 <= i < deliveries_to_confirmed(subscribers, issue_id).len() ==> (
            #[trigger] deliveries_to_confirmed(subscribers, issue_id)[i]).issue_id == issue_id,
    decreases subscribers.len(),
{
    if subscribers.len() > 0 {
        lemma_deliveries_to_confirmed(subscribers.drop_last(), issue_id);
    }
}

/// Staging an issue keeps the store well formed.
pub proof fn lemma_stage_issue_preserves_wf(s: StoreView, transaction: u64, issue: IssueView)
    requires
        s.wf(),
        s.is_open(transaction),
    ensures
        s.stage_issue(transaction, issue).wf(),
        s.stage_issue(transaction, issue).is_open(transaction),
        s.stage_issue(transaction, issue).pending(transaction) == (PendingClaim {
            issues: s.pending(transaction).issues.push(issue),
            ..s.pending(transaction)
        }),
        s.stage_issue(transaction, issue).issue_visible(transaction, issue.id),
{
    let pending = s.pending(transaction);
    let k = s.slot(transaction);
    lemma_slot_is_unique(s, k);
    let staged = PendingClaim { issues: pending.issues.push(issue), ..pending };
    assert forall|id: u128| pending.stages_issue(id) implies staged.stages_issue(id) by {
        let i = choose|i: int| 0 <= i < pending.issues.len() && (#[trigger] pending.issues[i]).id
            == id;
        assert(staged.issues[i].id == id);
    }
    assert forall|i: int| 0 <= i < staged.deliveries.len() implies {
        let id = (#[trigger] staged.deliveries[i]).issue_id;
        s.has_issue(id) || staged.stages_issue(id)
    } by {
        assert(staged.deliveries[i] == s.in_flight[k].deliveries[i]);
        let id = s.in_flight[k].deliveries[i].issue_id;
        assert(s.has_issue(id) || s.in_flight[k].stages_issue(id));
    }
    lemma_restage_preserves_wf(s, transaction, staged);
    assert(staged.issues[pending.issues.len() as int].id == issue.id);
}

/// Enqueuing the deliveries of an issue that the transaction can enqueue
/// keeps the store well formed.
pub proof fn lemma_stage_deliveries_preserves_wf(s: StoreView, transaction: u64, issue_id: u128)
    requires
        s.wf(),
        s.is_open(transaction),
        s.can_enqueue(transaction, issue_id),
    ensures
        s.stage_deliveries(transaction, issue_id).wf(),
        s.stage_deliveries(transaction, issue_id).is_open(transaction),
        s.stage_deliveries(transaction, issue_id).pending(transaction) == (PendingClaim {
            deliveries: s.pending(transaction).deliveries + deliveries_to_confirmed(
                s.subscribers,
                issue_id,
            ),
            ..s.pending(transaction)
        }),
{
    let pending = s.pending(transaction);
    let k = s.slot(transaction);
    lemma_slot_is_unique(s, k);
    let added = deliveries_to_confirmed(s.subscribers, issue_id);
    let staged = PendingClaim { deliveries: pending.deliveries + added, ..pending };
    lemma_deliveries_to_confirmed(s.subscribers, issue_id);
    assert forall|id: u128| pending.stages_issue(id) implies staged.stages_issue(id) by {
        lemma_stages_issue_depends_on_issues(pending, staged, id);
    }
    assert forall|i: int| 0 <= i < staged.deliveries.len() implies {
        let id = (#[trigger] staged.deliveries[i]).issue_id;
        s.has_issue(id) || staged.stages_issue(id)
    } by {
        let id = staged.deliveries[i].issue_id;
        lemma_stages_issue_depends_on_issues(pending, staged, id);
        if i < pending.deliveries.len() {
            assert(staged.deliveries[i] == s.in_flight[k].deliveries[i]);
            assert(s.has_issue(id) || s.in_flight[k].stages_issue(id));
        } else {
            assert(staged.deliveries[i] == added[i - pending.deliveries.len()]);
            assert(id == issue_id);
        }
    }
    lemma_restage_preserves_wf(s, transaction, staged);
}

/// Changing the subscriptions keeps the store well formed and leaves the
/// ledger, the issues and the outbox as they were.
pub proof fn lemma_subscriptions_preserve_wf(s: StoreView, subscribers: Seq<SubscriberView>)
    requires
        s.wf(),
    ensures
        (StoreView { subscribers, ..s }).wf(),
{
    let after = StoreView { subscribers, ..s };
    assert forall|i: int| 0 <= i < after.outbox.len() implies after.has_issue(
        (#[trigger] after.outbox[i]).issue_id,
    ) by {
        assert(s.has_issue(s.outbox[i].issue_id));
        lemma_has_issue_depends_on_issues(s, after, s.outbox[i].issue_id);
    }
    assert forall|t: int, i: int|
        0 <= t < after.in_flight.len() && 0 <= i < after.in_flight[t].deliveries.len() implies {
        let id = (#[trigger] after.in_flight[t].deliveries[i]).issue_id;
        after.has_issue(id) || after.in_flight[t].stages_issue(id)
    } by {
        let id = s.in_flight[t].deliveries[i].issue_id;
        assert(s.has_issue(id) || s.in_flight[t].stages_issue(id));
        lemma_has_issue_depends_on_issues(s, after, id);
    }
}


/// What the steps of a transaction at work do to the state, said in terms of
/// the state before the claim.
pub proof fn lemma_working(
    s: StoreView,
    claim: ClaimKey,
    now: i64,
    issues: Seq<IssueView>,
    deliveries: Seq<DeliveryView>,
)
    requires
        s.next_transaction < u64::MAX,
        s.working(claim, now, issues, deliveries).wf(),
    ensures
        ({
            let w = s.working(claim, now, issues, deliveries);
            let t = s.next_transaction as u64;
            &&& w.is_open(t)
            &&& w.holds(t, claim)
            &&& w.pending(t).issues == issues
            &&& w.pending(t).deliveries == deliveries
            &&& s.claim(claim, now) == s.working(claim, now, Seq::empty(), Seq::empty())
            &&& forall|issue: IssueView| #[trigger]
                w.stage_issue(t, issue) == s.working(claim, now, issues.push(issue), deliveries)
            &&& forall|id: u128| #[trigger]
                w.stage_deliveries(t, id) == s.working(
                    claim,
                    now,
                    issues,
                    deliveries + deliveries_to_confirmed(s.subscribers, id),
                )
            &&& w.rollback(t) == s.abandoned()
            &&& forall|snapshot: SnapshotView| #[trigger]
                w.commit(t, snapshot) == (StoreView {
                    ledger: s.ledger.push(LedgerRow { claim, created_at: now, snapshot }),
                    issues: s.issues + issues,
                    outbox: s.outbox + deliveries,
                    next_transaction: s.next_transaction + 1,
                    ..s
                })
        }),
{
    let w = s.working(claim, now, issues, deliveries);
    let t = s.next_transaction as u64;
    let last = s.in_flight.len() as int;
    assert(w.in_flight[last].transaction == t);
    lemma_slot_is_unique(w, last);
    assert(w.in_flight.remove(last) =~= s.in_flight);
    assert forall|issue: IssueView| #[trigger]
        w.stage_issue(t, issue) == s.working(claim, now, issues.push(issue), deliveries) by {
        assert(w.stage_issue(t, issue).in_flight =~= s.working(
            claim,
            now,
            issues.push(issue),
            deliveries,
        ).in_flight);
    }
    assert forall|id: u128| #[trigger]
        w.stage_deliveries(t, id) == s.working(
            claim,
            now,
            issues,
            deliveries + deliveries_to_confirmed(s.subscribers, id),
        ) by {
        assert(w.stage_deliveries(t, id).in_flight =~= s.working(
            claim,
            now,
            issues,
            deliveries + deliveries_to_confirmed(s.subscribers, id),
        ).in_flight);
    }
}

/// Publishing under a free key, step by step, ends in the published state:
/// claim, insert the issue, enqueue its deliveries, save and commit.
pub proof fn lemma_publish_steps(
    s: StoreView,
    claim: ClaimKey,
    now: i64,
    issue: IssueView,
    snapshot: SnapshotView,
)
    requires
        s.wf(),
        s.ledger_state(claim) == LedgerState::Absent,
        s.next_transaction < u64::MAX,
    ensures
        ({
            let t = s.next_transaction as u64;
            s.claim(claim, now).stage_issue(t, issue).stage_deliveries(t, issue.id).commit(
                t,
                snapshot,
            ) == s.published(claim, now, issue, snapshot)
        }),
{
    let t = s.next_transaction as u64;
    let none_staged = Seq::<IssueView>::empty();
    let none_enqueued = Seq::<DeliveryView>::empty();
    let enqueued = deliveries_to_confirmed(s.subscribers, issue.id);
    lemma_claim_preserves_wf(s, claim, now);
    let s1 = s.claim(claim, now);
    assert(s1 == s.working(claim, now, none_staged, none_enqueued));
    lemma_working(s, claim, now, none_staged, none_enqueued);
    lemma_stage_issue_preserves_wf(s1, t, issue);
    let s2 = s1.stage_issue(t, issue);
    assert(s2 == s.working(claim, now, none_staged.push(issue), none_enqueued));
    lemma_working(s, claim, now, none_staged.push(issue), none_enqueued);
    lemma_stage_deliveries_preserves_wf(s2, t, issue.id);
    let s3 = s2.stage_deliveries(t, issue.id);
    assert(none_enqueued + enqueued =~= enqueued);
    assert(s3 == s.working(claim, now, none_staged.push(issue), enqueued));
    lemma_working(s, claim, now, none_staged.push(issue), enqueued);
    assert(s.issues + none_staged.push(issue) =~= s.issues.push(issue));
}


/// What the ledger holds for a key depends on its rows alone, committed and
/// uncommitted.
pub proof fn lemma_ledger_state_depends_on_rows(a: StoreView, b: StoreView, claim: ClaimKey)
    requires
        a.wf(),
        b.wf(),
        a.ledger == b.ledger,
        a.in_flight == b.in_flight,
    ensures
        a.ledger_state(claim) == b.ledger_state(claim),
        forall|transaction: u64| a.is_open(transaction) == b.is_open(transaction),
        forall|transaction: u64|
            a.is_open(transaction) ==> a.pending(transaction) == b.pending(transaction),
{
    if a.is_completed(claim) {
        let i = a.ledger_index(claim);
        assert(b.ledger[i].claim == claim);
        lemma_ledger_index_is_unique(a, i);
        lemma_ledger_index_is_unique(b, i);
    } else if b.is_completed(claim) {
        let i = b.ledger_index(claim);
        assert(a.ledger[i].claim == claim);
    } else if a.is_held(claim) {
        let i = a.holder_index(claim);
        assert(b.in_flight[i].claim == claim);
        lemma_slot_is_unique(a, i);
        lemma_slot_is_unique(b, i);
    } else if b.is_held(claim) {
        let i = b.holder_index(claim);
        assert(a.in_flight[i].claim == claim);
    }
    assert forall|transaction: u64| a.is_open(transaction) == b.is_open(transaction) by {
        if a.is_open(transaction) {
            assert(b.in_flight[a.slot(transaction)].transaction == transaction);
        }
        if b.is_open(transaction) {
            assert(a.in_flight[b.slot(transaction)].transaction == transaction);
        }
    }
    assert forall|transaction: u64| a.is_open(transaction) implies a.pending(transaction)
        == b.pending(transaction) by {
        let i = a.slot(transaction);
        lemma_slot_is_unique(a, i);
        lemma_slot_is_unique(b, i);
    }
}

/// A claim that was rolled back leaves the store well formed and every key
/// as it was.
pub proof fn lemma_abandoned(s: StoreView, claim: ClaimKey)
    requires
        s.wf(),
        s.next_transaction < u64::MAX,
    ensures
        s.abandoned().wf(),
        s.abandoned().ledger_state(claim) == s.ledger_state(claim),
{
    let after = s.abandoned();
    assert forall|i: int| 0 <= i < after.in_flight.len() implies (
    #[trigger] after.in_flight[i]).transaction < after.next_transaction by {
        assert(s.in_flight[i].transaction < s.next_transaction);
    }
    assert forall|i: int| 0 <= i < after.outbox.len() implies after.has_issue(
        (#[trigger] after.outbox[i]).issue_id,
    ) by {
        assert(s.has_issue(s.outbox[i].issue_id));
        lemma_has_issue_depends_on_issues(s, after, s.outbox[i].issue_id);
    }
    assert forall|t: int, i: int|
        0 <= t < after.in_flight.len() && 0 <= i < after.in_flight[t].deliveries.len() implies {
        let id = (#[trigger] after.in_flight[t].deliveries[i]).issue_id;
        after.has_issue(id) || after.in_flight[t].stages_issue(id)
    } by {
        let id = s.in_flight[t].deliveries[i].issue_id;
        assert(s.has_issue(id) || s.in_flight[t].stages_issue(id));
        lemma_has_issue_depends_on_issues(s, after, id);
    }
    assert(after.wf());
    lemma_ledger_state_depends_on_rows(s, after, claim);
}

/// After an issue was published under a free key the store is well formed
/// and the key is completed, with the snapshot that was saved.
pub proof fn lemma_published(
    s: StoreView,
    claim: ClaimKey,
    now: i64,
    issue: IssueView,
    snapshot: SnapshotView,
)
    requires
        s.wf(),
        s.ledger_state(claim) == LedgerState::Absent,
        s.next_transaction < u64::MAX,
        decode_spec(snapshot) is Ok,
    ensures
        s.published(claim, now, issue, snapshot).wf(),
        s.published(claim, now, issue, snapshot).ledger_state(claim) == (LedgerState::Completed {
            snapshot,
        }),
{
    let t = s.next_transaction as u64;
    let none_staged = Seq::<IssueView>::empty();
    let none_enqueued = Seq::<DeliveryView>::empty();
    let enqueued = deliveries_to_confirmed(s.subscribers, issue.id);
    lemma_publish_steps(s, claim, now, issue, snapshot);
    lemma_claim_preserves_wf(s, claim, now);
    let s1 = s.claim(claim, now);
    lemma_working(s, claim, now, none_staged, none_enqueued);
    lemma_stage_issue_preserves_wf(s1, t, issue);
    let s2 = s1.stage_issue(t, issue);
    lemma_working(s, claim, now, none_staged.push(issue), none_enqueued);
    lemma_stage_deliveries_preserves_wf(s2, t, issue.id);
    let s3 = s2.stage_deliveries(t, issue.id);
    assert(none_enqueued + enqueued =~= enqueued);
    lemma_working(s, claim, now, none_staged.push(issue), enqueued);
    lemma_commit_preserves_wf(s3, t, snapshot);
}


/// The rows for an issue in two tables, one after the other, are the rows
/// for it in the first and then those in the second.
pub proof fn lemma_deliveries_of_concat(
    front: Seq<DeliveryView>,
    back: Seq<DeliveryView>,
    issue_id: u128,
)
    ensures
        deliveries_of(front + back, issue_id) == deliveries_of(front, issue_id) + deliveries_of(
            back,
            issue_id,
        ),
    decreases back.len(),
{
    if back.len() == 0 {
        assert(front + back =~= front);
        assert(deliveries_of(front, issue_id) + deliveries_of(back, issue_id) =~= deliveries_of(
            front,
            issue_id,
        ));
    } else {
        lemma_deliveries_of_concat(front, back.drop_last(), issue_id);
        assert((front + back).drop_last() =~= front + back.drop_last());
        assert((front + back).last() == back.last());
        assert(deliveries_of(front + back, issue_id) =~= deliveries_of(front, issue_id)
            + deliveries_of(back, issue_id));
    }
}

/// A table in which no row refers to an issue has no rows for it.
pub proof fn lemma_deliveries_of_none(rows: Seq<DeliveryView>, issue_id: u128)
    requires
        forall|i: int| 0 <= i < rows.len() ==> (#[trigger] rows[i]).issue_id != issue_id,
    ensures
        deliveries_of(rows, issue_id) == Seq::<DeliveryView>::empty(),
    decreases rows.len(),
{
    if rows.len() > 0 {
        assert forall|i: int| 0 <= i < rows.drop_last().len() implies (
        #[trigger] rows.drop_last()[i]).issue_id != issue_id by {
            assert(rows.drop_last()[i] == rows[i]);
        }
        lemma_deliveries_of_none(rows.drop_last(), issue_id);
        assert(rows.last() == rows[rows.len() - 1]);
    }
}

/// A table in which every row refers to an issue is the rows for it.
pub proof fn lemma_deliveries_of_all(rows: Seq<DeliveryView>, issue_id: u128)
    requires
        forall|i: int| 0 <= i < rows.len() ==> (#[trigger] rows[i]).issue_id == issue_id,
    ensures
        deliveries_of(rows, issue_id) == rows,
    decreases rows.len(),
{
    if rows.len() > 0 {
        assert forall|i: int| 0 <= i < rows.drop_last().len() implies (
        #[trigger] rows.drop_last()[i]).issue_id == issue_id by {
            assert(rows.drop_last()[i] == rows[i]);
        }
        lemma_deliveries_of_all(rows.drop_last(), issue_id);
        assert(rows.last() == rows[rows.len() - 1]);
        assert(rows.drop_last().push(rows.last()) =~= rows);
    } else {
        assert(rows =~= Seq::<DeliveryView>::empty());
    }
}


/// Confirming an id that no subscription has changes no subscription, and
/// confirming twice is confirming once.
pub proof fn lemma_confirm_unknown(subscribers: Seq<SubscriberView>, id: u128)
    ensures
        (forall|i: int| 0 <= i < subscribers.len() ==> (#[trigger] subscribers[i]).id != id)
            ==> confirm_in(subscribers, id) == subscribers,
        confirm_in(confirm_in(subscribers, id), id) == confirm_in(subscribers, id),
{
    if forall|i: int| 0 <= i < subscribers.len() ==> (#[trigger] subscribers[i]).id != id {
        assert(confirm_in(subscribers, id) =~= subscribers);
    }
    assert(confirm_in(confirm_in(subscribers, id), id) =~= confirm_in(subscribers, id));
}


} // verus!
