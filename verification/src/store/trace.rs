//! The steps that requests take on the store, and runs of such steps.
//!
//! Requests that are served at the same time take their steps in turn, in
//! some order. A run is any such order: what holds of every run holds of
//! every way in which concurrent requests can meet.

use crate::http::HttpResponseView;
use crate::idempotency::snapshot::encodable;
use crate::idempotency::snapshot::encode_spec;
use crate::idempotency::snapshot::lemma_decode_inverts_encode;
use crate::store::model::confirm_in;
use crate::store::model::deliveries_of;
use crate::store::model::lemma_claim_preserves_wf;
use crate::store::model::lemma_commit_preserves_wf;
use crate::store::model::lemma_deliveries_of_none;
use crate::store::model::lemma_has_issue_depends_on_issues;
use crate::store::model::lemma_ledger_index_is_unique;
use crate::store::model::lemma_rollback_preserves_wf;
use crate::store::model::lemma_slot_is_unique;
use crate::store::model::lemma_stage_deliveries_preserves_wf;
use crate::store::model::lemma_stage_issue_preserves_wf;
use crate::store::model::lemma_stages_issue_depends_on_issues;
use crate::store::model::lemma_subscriptions_preserve_wf;
use crate::store::model::ClaimKey;
use crate::store::model::IssueView;
use crate::store::model::LedgerState;
use crate::store::model::StoreView;
use crate::store::model::SubscriberView;
use vstd::prelude::*;

verus! {

/// One step of one request.
pub enum Step {
    /// A call of `try_processing`.
    TryProcessing { claim: ClaimKey, now: i64 },
    /// The insert of an issue under a transaction.
    StoreIssue { transaction: u64, issue: IssueView },
    /// The enqueuing of an issue's deliveries under a transaction.
    Enqueue { transaction: u64, issue_id: u128 },
    /// A call of `save_response`.
    SaveResponse { transaction: u64, claim: ClaimKey, response: HttpResponseView },
    /// The rollback of a transaction.
    Rollback { transaction: u64 },
    /// The adding of a subscription.
    Subscribe { subscriber: SubscriberView },
    /// The confirmation of a subscription.
    Confirm { id: u128 },
}

impl Step {
    /// The transaction under which the step is taken, if it is taken under one.
    pub open spec fn transaction(self) -> Option<u64> {
        match self {
            Step::StoreIssue { transaction, .. } => Some(transaction),
            Step::Enqueue { transaction, .. } => Some(transaction),
            Step::SaveResponse { transaction, .. } => Some(transaction),
            Step::Rollback { transaction } => Some(transaction),
            _ => None,
        }
    }

    /// Whether the step changes who is subscribed, or who is confirmed.
    pub open spec fn touches_subscriptions(self) -> bool {
        self is Subscribe || self is Confirm
    }
}

impl StoreView {
    /// Whether `save_response`, called with these, commits.
    pub open spec fn can_save(
        self,
        transaction: u64,
        claim: ClaimKey,
        response: HttpResponseView,
    ) -> bool {
        self.holds(transaction, claim) && encodable(response)
    }

    /// The state after a step: each operation does its work where its
    /// conditions are met, and otherwise what it does when it refuses.
    pub open spec fn apply(self, step: Step) -> StoreView {
        match step {
            Step::TryProcessing { claim, now } => if self.ledger_state(claim) == LedgerState::Absent
                && self.next_transaction < u64::MAX {
                self.claim(claim, now)
            } else {
                self
            },
            Step::StoreIssue { transaction, issue } => if self.is_open(transaction)
                && !self.issue_id_taken(issue.id) {
                self.stage_issue(transaction, issue)
            } else {
                self
            },
            Step::Enqueue { transaction, issue_id } => if self.is_open(transaction)
                && self.can_enqueue(transaction, issue_id) {
                self.stage_deliveries(transaction, issue_id)
            } else {
                self
            },
            Step::SaveResponse { transaction, claim, response } => if self.can_save(
                transaction,
                claim,
                response,
            ) {
                self.commit(transaction, encode_spec(response))
            } else {
                self.rollback(transaction)
            },
            Step::Rollback { transaction } => self.rollback(transaction),
            Step::Subscribe { subscriber } => if !self.has_subscriber(
                subscriber.id,
                subscriber.email,
            ) {
                self.subscribe(subscriber)
            } else {
                self
            },
            Step::Confirm { id } => if self.has_subscriber_id(id) {
                self.confirm(id)
            } else {
                self
            },
        }
    }

    /// The state after a run of steps, taken in order.
    pub open spec fn run(self, steps: Seq<Step>) -> StoreView
        decreases steps.len(),
    {
        if steps.len() == 0 {
            self
        } else {
            self.run(steps.drop_last()).apply(steps.last())
        }
    }
}

/// Every step keeps the store well formed.
pub proof fn lemma_step_preserves_wf(s: StoreView, step: Step)
    requires
        s.wf(),
    ensures
        s.apply(step).wf(),
{
    match step {
        Step::TryProcessing { claim, now } => {
            if s.ledger_state(claim) == LedgerState::Absent && s.next_transaction < u64::MAX {
                lemma_claim_preserves_wf(s, claim, now);
            }
        },
        Step::StoreIssue { transaction, issue } => {
            if s.is_open(transaction) {
                lemma_stage_issue_preserves_wf(s, transaction, issue);
            }
        },
        Step::Enqueue { transaction, issue_id } => {
            if s.is_open(transaction) && s.can_enqueue(transaction, issue_id) {
                lemma_stage_deliveries_preserves_wf(s, transaction, issue_id);
            }
        },
        Step::SaveResponse { transaction, claim, response } => {
            if s.can_save(transaction, claim, response) {
                lemma_decode_inverts_encode(response);
                lemma_commit_preserves_wf(s, transaction, encode_spec(response));
            } else {
                lemma_rollback_preserves_wf(s, transaction);
            }
        },
        Step::Rollback { transaction } => {
            lemma_rollback_preserves_wf(s, transaction);
        },
        Step::Subscribe { subscriber } => {
            lemma_subscriptions_preserve_wf(s, s.subscribers.push(subscriber));
        },
        Step::Confirm { id } => {
            lemma_subscriptions_preserve_wf(s, confirm_in(s.subscribers, id));
        },
    }
}

/// Every run keeps the store well formed.
pub proof fn lemma_run_preserves_wf(s: StoreView, steps: Seq<Step>)
    requires
        s.wf(),
    ensures
        s.run(steps).wf(),
    decreases steps.len(),
{
    if steps.len() > 0 {
        lemma_run_preserves_wf(s, steps.drop_last());
        lemma_step_preserves_wf(s.run(steps.drop_last()), steps.last());
    }
}

/// A run up to a point, and on from there, is the run.
pub proof fn lemma_run_split(s: StoreView, steps: Seq<Step>, at: int)
    requires
        0 <= at <= steps.len(),
    ensures
        s.run(steps) == s.run(steps.take(at)).run(steps.skip(at)),
    decreases steps.len(),
{
    if at == steps.len() {
        assert(steps.take(at) =~= steps);
        assert(steps.skip(at) =~= Seq::<Step>::empty());
    } else {
        lemma_run_split(s, steps.drop_last(), at);
        assert(steps.drop_last().take(at) =~= steps.take(at));
        assert(steps.drop_last().skip(at) =~= steps.skip(at).drop_last());
        assert(steps.skip(at).last() == steps.last());
    }
}

/// Whether one table holds another at its front, row for row.
pub open spec fn extends<T>(later: Seq<T>, earlier: Seq<T>) -> bool {
    &&& earlier.len() <= later.len()
    &&& forall|i: int| 0 <= i < earlier.len() ==> later[i] == earlier[i]
}

/// The committed tables only grow: a step may add rows at the end of the
/// ledger, the issues and the outbox, and leaves every row that is there in
/// its place, as it is.
pub proof fn lemma_step_appends(s: StoreView, step: Step)
    ensures
        extends(s.apply(step).ledger, s.ledger),
        extends(s.apply(step).issues, s.issues),
        extends(s.apply(step).outbox, s.outbox),
{
}

/// A step under one transaction, or under none, leaves every other open
/// transaction open, with its row and all it has staged.
pub proof fn lemma_step_leaves_others(s: StoreView, step: Step, transaction: u64)
    requires
        s.wf(),
        s.is_open(transaction),
        step.transaction() != Some(transaction),
    ensures
        s.apply(step).is_open(transaction),
        s.apply(step).pending(transaction) == s.pending(transaction),
{
    let after = s.apply(step);
    let k = s.slot(transaction);
    lemma_slot_is_unique(s, k);
    lemma_step_preserves_wf(s, step);
    // Where the row stands after the step.
    let moved: int = match step.transaction() {
        Some(acting) => if s.is_open(acting) {
            let a = s.slot(acting);
            lemma_slot_is_unique(s, a);
            if (step is SaveResponse || step is Rollback) && a < k {
                k - 1
            } else {
                k
            }
        } else {
            k
        },
        None => k,
    };
    match step {
        Step::TryProcessing { claim, now } => {},
        Step::StoreIssue { transaction: acting, issue } => {
            if s.is_open(acting) {
                assert(s.slot(acting) != k);
            }
        },
        Step::Enqueue { transaction: acting, issue_id } => {
            if s.is_open(acting) {
                assert(s.slot(acting) != k);
            }
        },
        Step::SaveResponse { transaction: acting, claim, response } => {
            if s.is_open(acting) {
                assert(s.slot(acting) != k);
            }
        },
        Step::Rollback { transaction: acting } => {
            if s.is_open(acting) {
                assert(s.slot(acting) != k);
            }
        },
        Step::Subscribe { subscriber } => {},
        Step::Confirm { id } => {},
    }
    assert(0 <= moved < after.in_flight.len());
    assert(after.in_flight[moved] == s.in_flight[k]);
    lemma_slot_is_unique(after, moved);
}

/// A key that is held after a step was held before it, unless the step was
/// the call of `try_processing` that claimed it.
pub proof fn lemma_step_holders_come_from(s: StoreView, step: Step, claim: ClaimKey)
    requires
        s.wf(),
        s.apply(step).is_held(claim),
    ensures
        s.is_held(claim) || (step is TryProcessing && step->TryProcessing_claim == claim
            && s.ledger_state(claim) == LedgerState::Absent),
{
    let after = s.apply(step);
    let j = after.holder_index(claim);
    assert(after.in_flight[j].claim == claim);
    match step {
        Step::TryProcessing { claim: claimed, now } => {
            if s.ledger_state(claimed) == LedgerState::Absent && s.next_transaction < u64::MAX {
                if j < s.in_flight.len() {
                    assert(s.in_flight[j].claim == claim);
                }
            }
        },
        Step::StoreIssue { transaction, issue } => {
            if s.is_open(transaction) && !s.issue_id_taken(issue.id) {
                let k = s.slot(transaction);
                assert(s.in_flight[j].claim == claim);
            }
        },
        Step::Enqueue { transaction, issue_id } => {
            if s.is_open(transaction) && s.can_enqueue(transaction, issue_id) {
                let k = s.slot(transaction);
                assert(s.in_flight[j].claim == claim);
            }
        },
        Step::SaveResponse { transaction, claim: saved, response } => {
            if s.is_open(transaction) {
                let k = s.slot(transaction);
                let o = if j < k { j } else { j + 1 };
                assert(after.in_flight[j] == s.in_flight[o]);
            }
        },
        Step::Rollback { transaction } => {
            if s.is_open(transaction) {
                let k = s.slot(transaction);
                let o = if j < k { j } else { j + 1 };
                assert(after.in_flight[j] == s.in_flight[o]);
            }
        },
        Step::Subscribe { subscriber } => {},
        Step::Confirm { id } => {},
    }
}

/// A key that is completed after a step was completed before it, unless the
/// step was the call of `save_response` that committed it.
pub proof fn lemma_step_completions_come_from(s: StoreView, step: Step, claim: ClaimKey)
    requires
        s.wf(),
        s.apply(step).is_completed(claim),
    ensures
        s.is_completed(claim) || (step is SaveResponse && step->SaveResponse_claim == claim
            && s.can_save(step->SaveResponse_transaction, claim, step->SaveResponse_response)),
{
    let after = s.apply(step);
    let j = after.ledger_index(claim);
    assert(after.ledger[j].claim == claim);
    if j < s.ledger.len() {
        lemma_step_appends(s, step);
        assert(s.ledger[j].claim == claim);
    }
}

/// A committed row stays as it is, whatever step is taken: the key stays
/// completed, with the same snapshot.
pub proof fn lemma_step_keeps_completed(s: StoreView, step: Step, claim: ClaimKey)
    requires
        s.wf(),
        s.ledger_state(claim) is Completed,
    ensures
        s.apply(step).ledger_state(claim) == s.ledger_state(claim),
{
    let i = s.ledger_index(claim);
    assert(s.ledger[i].claim == claim);
    lemma_step_appends(s, step);
    lemma_step_preserves_wf(s, step);
    assert(s.apply(step).ledger[i] == s.ledger[i]);
    lemma_ledger_index_is_unique(s.apply(step), i);
}

/// A committed row stays as it is, whatever run is taken.
pub proof fn lemma_run_keeps_completed(s: StoreView, steps: Seq<Step>, claim: ClaimKey)
    requires
        s.wf(),
        s.ledger_state(claim) is Completed,
    ensures
        s.run(steps).ledger_state(claim) == s.ledger_state(claim),
    decreases steps.len(),
{
    if steps.len() > 0 {
        lemma_run_keeps_completed(s, steps.drop_last(), claim);
        lemma_run_preserves_wf(s, steps.drop_last());
        lemma_step_keeps_completed(s.run(steps.drop_last()), steps.last(), claim);
    }
}


/// Whether an issue is known to one open transaction and to nobody else: the
/// transaction has staged it, it is not committed, and no other transaction
/// has staged an issue with its id.
pub open spec fn stages_alone(s: StoreView, transaction: u64, id: u128) -> bool {
    &&& s.is_open(transaction)
    &&& s.pending(transaction).stages_issue(id)
    &&& !s.has_issue(id)
    &&& forall|t: int|
        0 <= t < s.in_flight.len() && (#[trigger] s.in_flight[t]).stages_issue(id) ==> t == s.slot(
            transaction,
        )
}

/// An issue inserted under a free id is known to its transaction alone, and
/// no delivery that the transaction has staged refers to it yet.
pub proof fn lemma_staging_a_free_id(s: StoreView, transaction: u64, issue: IssueView)
    requires
        s.wf(),
        s.is_open(transaction),
        !s.issue_id_taken(issue.id),
    ensures
        s.stage_issue(transaction, issue).wf(),
        stages_alone(s.stage_issue(transaction, issue), transaction, issue.id),
        deliveries_of(s.stage_issue(transaction, issue).pending(transaction).deliveries, issue.id)
            == Seq::<crate::store::model::DeliveryView>::empty(),
{
    let after = s.stage_issue(transaction, issue);
    let k = s.slot(transaction);
    let id = issue.id;
    lemma_slot_is_unique(s, k);
    lemma_stage_issue_preserves_wf(s, transaction, issue);
    lemma_slot_is_unique(after, k);
    lemma_has_issue_depends_on_issues(s, after, id);
    assert forall|t: int|
        0 <= t < after.in_flight.len() && (#[trigger] after.in_flight[t]).stages_issue(
            id,
        ) implies t == after.slot(transaction) by {
        if t != k {
            assert(after.in_flight[t] == s.in_flight[t]);
            assert(s.in_flight[t].stages_issue(id));
            assert(s.has_staged_issue(id));
        }
    }
    let staged = after.pending(transaction).deliveries;
    assert(staged == s.in_flight[k].deliveries);
    assert forall|i: int| 0 <= i < staged.len() implies (#[trigger] staged[i]).issue_id != id by {
        let referred = s.in_flight[k].deliveries[i].issue_id;
        assert(s.has_issue(referred) || s.in_flight[k].stages_issue(referred));
        if referred == id {
            assert(s.has_staged_issue(id));
        }
    }
    lemma_deliveries_of_none(staged, id);
}

/// While an issue is known to its transaction alone, no committed outbox row
/// refers to it.
pub proof fn lemma_alone_means_no_rows(s: StoreView, transaction: u64, id: u128)
    requires
        s.wf(),
        stages_alone(s, transaction, id),
    ensures
        deliveries_of(s.outbox, id) == Seq::<crate::store::model::DeliveryView>::empty(),
{
    assert forall|i: int| 0 <= i < s.outbox.len() implies (#[trigger] s.outbox[i]).issue_id
        != id by {
        assert(s.has_issue(s.outbox[i].issue_id));
    }
    lemma_deliveries_of_none(s.outbox, id);
}

/// A step that is not taken under the transaction leaves an issue that is
/// known to the transaction alone known to it alone.
pub proof fn lemma_step_by_others_keeps_alone(s: StoreView, step: Step, transaction: u64, id: u128)
    requires
        s.wf(),
        stages_alone(s, transaction, id),
        step.transaction() != Some(transaction),
    ensures
        s.apply(step).wf(),
        stages_alone(s.apply(step), transaction, id),
        s.apply(step).pending(transaction) == s.pending(transaction),
{
    let after = s.apply(step);
    let k = s.slot(transaction);
    lemma_slot_is_unique(s, k);
    lemma_step_preserves_wf(s, step);
    lemma_step_leaves_others(s, step, transaction);
    assert(s.has_staged_issue(id));
    // No issue with this id is committed by the step.
    assert(!after.has_issue(id)) by {
        if after.has_issue(id) {
            let j = choose|j: int|
                0 <= j < after.issues.len() && (#[trigger] after.issues[j]).id == id;
            if j < s.issues.len() {
                lemma_step_appends(s, step);
                assert(s.issues[j].id == id);
            } else {
                let acting = step->SaveResponse_transaction;
                let a = s.slot(acting);
                lemma_slot_is_unique(s, a);
                assert(s.in_flight[a].issues[j - s.issues.len()].id == id);
                assert(s.in_flight[a].stages_issue(id));
            }
        }
    }
    // Every row that stages the issue after the step is the transaction's own.
    assert forall|t: int|
        0 <= t < after.in_flight.len() && (#[trigger] after.in_flight[t]).stages_issue(
            id,
        ) implies t == after.slot(transaction) by {
        let row = after.in_flight[t];
        // The row as it was before the step, if it was there.
        let was: int = match step {
            Step::TryProcessing { .. } => t,
            Step::StoreIssue { .. } => t,
            Step::Enqueue { .. } => t,
            Step::Subscribe { .. } => t,
            Step::Confirm { .. } => t,
            _ => {
                let acting = step.transaction().unwrap();
                if s.is_open(acting) && s.slot(acting) <= t {
                    t + 1
                } else {
                    t
                }
            },
        };
        match step {
            Step::TryProcessing { claim, now } => {
                if t == s.in_flight.len() {
                    assert(row.issues.len() == 0);
                }
            },
            Step::StoreIssue { transaction: acting, issue } => {
                if s.is_open(acting) && !s.issue_id_taken(issue.id) {
                    let a = s.slot(acting);
                    lemma_slot_is_unique(s, a);
                    if t == a {
                        let i = choose|i: int|
                            0 <= i < row.issues.len() && (#[trigger] row.issues[i]).id == id;
                        if i < s.in_flight[a].issues.len() {
                            assert(s.in_flight[a].issues[i].id == id);
                        }
                    }
                }
            },
            Step::Enqueue { transaction: acting, issue_id } => {
                if s.is_open(acting) && s.can_enqueue(acting, issue_id) {
                    let a = s.slot(acting);
                    lemma_slot_is_unique(s, a);
                    if t == a {
                        lemma_stages_issue_depends_on_issues(s.in_flight[a], row, id);
                    }
                }
            },
            Step::SaveResponse { transaction: acting, claim, response } => {
                if s.is_open(acting) {
                    lemma_slot_is_unique(s, s.slot(acting));
                }
            },
            Step::Rollback { transaction: acting } => {
                if s.is_open(acting) {
                    lemma_slot_is_unique(s, s.slot(acting));
                }
            },
            Step::Subscribe { subscriber } => {},
            Step::Confirm { id: confirmed } => {},
        }
        assert(s.in_flight[was].stages_issue(id));
        assert(was == k);
        assert(row.transaction == transaction);
        lemma_slot_is_unique(after, t);
    }
}

/// A run of steps, none taken under the transaction, leaves an issue that is
/// known to the transaction alone known to it alone, and leaves what the
/// transaction has staged as it is.
pub proof fn lemma_run_by_others_keeps_alone(
    s: StoreView,
    steps: Seq<Step>,
    transaction: u64,
    id: u128,
)
    requires
        s.wf(),
        stages_alone(s, transaction, id),
        forall|i: int| 0 <= i < steps.len() ==> (#[trigger] steps[i]).transaction() != Some(
            transaction,
        ),
    ensures
        s.run(steps).wf(),
        stages_alone(s.run(steps), transaction, id),
        s.run(steps).pending(transaction) == s.pending(transaction),
    decreases steps.len(),
{
    if steps.len() > 0 {
        assert forall|i: int| 0 <= i < steps.drop_last().len() implies (
        #[trigger] steps.drop_last()[i]).transaction() != Some(transaction) by {
            assert(steps.drop_last()[i] == steps[i]);
        }
        lemma_run_by_others_keeps_alone(s, steps.drop_last(), transaction, id);
        assert(steps.last() == steps[steps.len() - 1]);
        lemma_step_by_others_keeps_alone(
            s.run(steps.drop_last()),
            steps.last(),
            transaction,
            id,
        );
    }
}

/// A run without a step that touches the subscriptions leaves them as they are.
pub proof fn lemma_run_keeps_subscriptions(s: StoreView, steps: Seq<Step>)
    requires
        forall|i: int| 0 <= i < steps.len() ==> !(#[trigger] steps[i]).touches_subscriptions(),
    ensures
        s.run(steps).subscribers == s.subscribers,
    decreases steps.len(),
{
    if steps.len() > 0 {
        assert forall|i: int| 0 <= i < steps.drop_last().len() implies !(
        #[trigger] steps.drop_last()[i]).touches_subscriptions() by {
            assert(steps.drop_last()[i] == steps[i]);
        }
        lemma_run_keeps_subscriptions(s, steps.drop_last());
        assert(steps.last() == steps[steps.len() - 1]);
    }
}


} // verus!
