//! What holds of every run of the store, however the steps of concurrent
//! requests follow one another.

use crate::authentication::middleware::UserId;
use crate::http::HttpResponse;
use crate::http::HttpResponseView;
use crate::idempotency::key::is_valid_key;
use crate::idempotency::key::IdempotencyKey;
use crate::idempotency::persistence::claim_or_replay;
use crate::idempotency::persistence::NextAction;
use crate::idempotency::protocol::IdempotencyError;
use crate::idempotency::snapshot::decode_spec;
use crate::idempotency::snapshot::encodable;
use crate::idempotency::snapshot::encode_spec;
use crate::idempotency::snapshot::lemma_decode_inverts_encode;
use crate::idempotency::snapshot::CodecError;
use crate::routes::admin::newsletter::post::accepted;
use crate::routes::admin::newsletter::post::issue_of;
use crate::routes::admin::newsletter::post::publish_outcome;
use crate::routes::admin::newsletter::post::BodyData;
use crate::routes::admin::newsletter::post::PublishError;
use crate::store::memory::claim_key;
use crate::store::model::confirmed_count;
use crate::store::model::deliveries_of;
use crate::store::model::deliveries_to_confirmed;
use crate::store::model::lemma_abandoned;
use crate::store::model::lemma_claim_preserves_wf;
use crate::store::model::lemma_commit_preserves_wf;
use crate::store::model::lemma_commit_publishes_issues;
use crate::store::model::lemma_deliveries_of_all;
use crate::store::model::lemma_deliveries_of_concat;
use crate::store::model::lemma_deliveries_to_confirmed;
use crate::store::model::lemma_published;
use crate::store::model::lemma_rollback_preserves_wf;
use crate::store::model::lemma_slot_is_unique;
use crate::store::model::lemma_stage_deliveries_preserves_wf;
use crate::store::model::lemma_stages_issue_depends_on_issues;
use crate::store::model::ClaimKey;
use crate::store::model::DeliveryView;
use crate::store::model::IssueView;
use crate::store::model::LedgerState;
use crate::store::model::StoreView;
use crate::store::trace::extends;
use crate::store::trace::lemma_alone_means_no_rows;
use crate::store::trace::lemma_run_by_others_keeps_alone;
use crate::store::trace::lemma_run_keeps_completed;
use crate::store::trace::lemma_run_keeps_subscriptions;
use crate::store::trace::lemma_run_preserves_wf;
use crate::store::trace::lemma_run_split;
use crate::store::trace::lemma_staging_a_free_id;
use crate::store::trace::lemma_step_completions_come_from;
use crate::store::trace::lemma_step_holders_come_from;
use crate::store::trace::lemma_step_keeps_completed;
use crate::store::trace::lemma_step_leaves_others;
use crate::store::trace::lemma_step_preserves_wf;
use crate::store::trace::stages_alone;
use crate::store::trace::Step;
use vstd::prelude::*;

verus! {

/// Whether the step at position `at` of a run is a call of `save_response`
/// that commits a response under the key.
pub open spec fn commits_at(s: StoreView, steps: Seq<Step>, at: int, claim: ClaimKey) -> bool {
    &&& 0 <= at < steps.len()
    &&& steps[at] matches Step::SaveResponse { transaction, claim: saved, response }
    &&& saved == claim
    &&& s.run(steps.take(at)).can_save(transaction, claim, response)
}

/// The state after the first `at + 1` steps of a run is the state after the
/// first `at` steps with step `at` taken on it.
pub proof fn lemma_run_take_next(s: StoreView, steps: Seq<Step>, at: int)
    requires
        0 <= at < steps.len(),
    ensures
        s.run(steps.take(at + 1)) == s.run(steps.take(at)).apply(steps[at]),
{
    assert(steps.take(at + 1).drop_last() =~= steps.take(at));
    assert(steps.take(at + 1).last() == steps[at]);
}

/// At most once. In no run does a second call of `save_response` commit
/// under a key under which one has committed: however many requests submit
/// the key, and in whatever order their steps are taken, one of them at most
/// completes the action.
pub proof fn law_at_most_one_commit(
    s: StoreView,
    steps: Seq<Step>,
    first: int,
    second: int,
    claim: ClaimKey,
)
    requires
        s.wf(),
        first < second,
        commits_at(s, steps, first, claim),
    ensures
        !commits_at(s, steps, second, claim),
{
    if commits_at(s, steps, second, claim) {
        let at_first = s.run(steps.take(first));
        let after_first = s.run(steps.take(first + 1));
        let at_second = s.run(steps.take(second));
        lemma_run_preserves_wf(s, steps.take(first));
        lemma_run_take_next(s, steps, first);
        let transaction = steps[first]->SaveResponse_transaction;
        let response = steps[first]->SaveResponse_response;
        lemma_decode_inverts_encode(response);
        lemma_commit_preserves_wf(at_first, transaction, encode_spec(response));
        assert(after_first.ledger_state(claim) is Completed);
        // The steps between the two leave the row as it is.
        let upto = steps.take(second);
        lemma_run_split(s, upto, first + 1);
        assert(upto.take(first + 1) =~= steps.take(first + 1));
        lemma_run_keeps_completed(after_first, upto.skip(first + 1), claim);
        lemma_run_preserves_wf(s, upto);
        assert(at_second.is_completed(claim));
        // So no transaction holds the key when the second call is made.
        let other = steps[second]->SaveResponse_transaction;
        assert(at_second.holds(other, claim));
        lemma_slot_is_unique(at_second, at_second.slot(other));
    }
}

/// Replay fidelity. Once a response is saved under a key, every later call
/// of `try_processing` for that key, after whatever steps of whatever
/// requests, returns that response, status, headers and body, and leaves the
/// store exactly as it found it.
pub proof fn law_replay_fidelity(
    before: StoreView,
    transaction: u64,
    caller: UserId,
    key: IdempotencyKey,
    response: HttpResponseView,
    steps: Seq<Step>,
    now: i64,
    result: Result<NextAction, IdempotencyError>,
    after: StoreView,
)
    requires
        before.wf(),
        before.can_save(transaction, claim_key(caller, key), response),
        claim_or_replay(
            before.apply(
                Step::SaveResponse { transaction, claim: claim_key(caller, key), response },
            ).run(steps),
            caller,
            key,
            now,
            result,
            after,
        ),
    ensures
        result matches Ok(NextAction::ReturnSavedResponse(replayed)) && replayed@ == response,
        after == before.apply(
            Step::SaveResponse { transaction, claim: claim_key(caller, key), response },
        ).run(steps),
{
    let claim = claim_key(caller, key);
    let saved = before.apply(Step::SaveResponse { transaction, claim, response });
    lemma_decode_inverts_encode(response);
    lemma_commit_preserves_wf(before, transaction, encode_spec(response));
    lemma_run_keeps_completed(saved, steps, claim);
}

/// A saved snapshot is never rewritten: the key stays completed with the
/// snapshot it has, whatever run is taken.
pub proof fn law_saved_snapshot_is_immutable(s: StoreView, steps: Seq<Step>, claim: ClaimKey)
    requires
        s.wf(),
        s.ledger_state(claim) is Completed,
    ensures
        s.run(steps).ledger_state(claim) == s.ledger_state(claim),
{
    lemma_run_keeps_completed(s, steps, claim);
}

/// One owner. While a transaction holds a key, no other transaction holds
/// it, no call of `save_response` under another transaction commits under
/// it, and every call of `try_processing` for it has to wait: it fails with
/// `ClaimConflictTimeout` and changes nothing.
pub proof fn law_claim_excludes(
    s: StoreView,
    owner: u64,
    caller: UserId,
    key: IdempotencyKey,
    now: i64,
    result: Result<NextAction, IdempotencyError>,
    after: StoreView,
)
    requires
        s.wf(),
        s.holds(owner, claim_key(caller, key)),
        claim_or_replay(s, caller, key, now, result, after),
    ensures
        result matches Err(e) && e == IdempotencyError::ClaimConflictTimeout,
        after == s,
        forall|other: u64| #[trigger] s.holds(other, claim_key(caller, key)) ==> other == owner,
        forall|other: u64, response: HttpResponseView|
            other != owner ==> !s.can_save(other, claim_key(caller, key), response),
{
    let claim = claim_key(caller, key);
    lemma_slot_is_unique(s, s.slot(owner));
    assert forall|other: u64| #[trigger] s.holds(other, claim) implies other == owner by {
        lemma_slot_is_unique(s, s.slot(other));
    }
    assert forall|other: u64, response: HttpResponseView| other != owner implies !s.can_save(
        other,
        claim,
        response,
    ) by {
        if s.holds(other, claim) {
            lemma_slot_is_unique(s, s.slot(other));
        }
    }
}

/// Whether a step has to do with a key: it is the call of `try_processing`
/// for the key, or it is taken under the transaction that holds the key.
pub open spec fn concerns(s: StoreView, step: Step, claim: ClaimKey) -> bool {
    match step {
        Step::TryProcessing { claim: claimed, .. } => claimed == claim,
        _ => step.transaction() matches Some(transaction) && s.holds(transaction, claim),
    }
}

/// Key isolation. A step that has to do with other keys only, whether it
/// succeeds or fails, leaves a key as it is: free, or held by the same
/// transaction with the same work staged, or completed with the same
/// snapshot. Since `try_processing` goes by the state of its own key, what
/// happens under one key neither blocks nor changes what happens under another.
pub proof fn law_key_isolation(s: StoreView, step: Step, claim: ClaimKey)
    requires
        s.wf(),
        !concerns(s, step, claim),
    ensures
        s.apply(step).ledger_state(claim) == s.ledger_state(claim),
        s.ledger_state(claim) is InFlight ==> s.apply(step).pending(
            s.ledger_state(claim)->transaction,
        ) == s.pending(s.ledger_state(claim)->transaction),
{
    let after = s.apply(step);
    lemma_step_preserves_wf(s, step);
    match s.ledger_state(claim) {
        LedgerState::Completed { snapshot } => {
            lemma_step_keeps_completed(s, step, claim);
        },
        LedgerState::InFlight { transaction } => {
            let k = s.holder_index(claim);
            assert(s.in_flight[k].claim == claim);
            lemma_slot_is_unique(s, k);
            assert(s.holds(transaction, claim));
            lemma_step_leaves_others(s, step, transaction);
            lemma_slot_is_unique(after, after.slot(transaction));
        },
        LedgerState::Absent => {
            if after.is_held(claim) {
                lemma_step_holders_come_from(s, step, claim);
            }
            if after.is_completed(claim) {
                lemma_step_completions_come_from(s, step, claim);
                let transaction = step->SaveResponse_transaction;
                lemma_slot_is_unique(s, s.slot(transaction));
            }
        },
    }
}

/// Whether every step of a run has to do with other keys only.
pub open spec fn run_spares(s: StoreView, steps: Seq<Step>, claim: ClaimKey) -> bool {
    forall|i: int|
        0 <= i < steps.len() ==> !concerns(s.run(steps.take(i)), #[trigger] steps[i], claim)
}

/// Key isolation, for whole runs. However many steps are taken that have to
/// do with other keys only, by however many requests and whether they
/// succeed or fail, a key is after them as it was before.
pub proof fn law_key_isolation_in_runs(s: StoreView, steps: Seq<Step>, claim: ClaimKey)
    requires
        s.wf(),
        run_spares(s, steps, claim),
    ensures
        s.run(steps).ledger_state(claim) == s.ledger_state(claim),
    decreases steps.len(),
{
    if steps.len() > 0 {
        let earlier = steps.drop_last();
        let last = steps.len() - 1;
        assert(steps.take(last) =~= earlier);
        assert forall|i: int| 0 <= i < earlier.len() implies !concerns(
            s.run(earlier.take(i)),
            #[trigger] earlier[i],
            claim,
        ) by {
            assert(earlier.take(i) =~= steps.take(i));
            assert(earlier[i] == steps[i]);
        }
        law_key_isolation_in_runs(s, earlier, claim);
        lemma_run_preserves_wf(s, earlier);
        assert(!concerns(s.run(steps.take(last)), steps[last], claim));
        law_key_isolation(s.run(earlier), steps.last(), claim);
    }
}

/// Rollback frees the key. When the transaction that holds a key is rolled
/// back, no row is left for the key, nothing that was staged under it
/// reaches the issues or the outbox, and the next call of `try_processing`
/// for the key is a fresh claim.
pub proof fn law_rollback_frees_the_key(
    s: StoreView,
    transaction: u64,
    caller: UserId,
    key: IdempotencyKey,
    now: i64,
    result: Result<NextAction, IdempotencyError>,
    after: StoreView,
)
    requires
        s.wf(),
        s.holds(transaction, claim_key(caller, key)),
        s.next_transaction < u64::MAX,
        claim_or_replay(s.rollback(transaction), caller, key, now, result, after),
    ensures
        s.rollback(transaction).ledger_state(claim_key(caller, key)) == LedgerState::Absent,
        s.rollback(transaction).ledger == s.ledger,
        s.rollback(transaction).issues == s.issues,
        s.rollback(transaction).outbox == s.outbox,
        result matches Ok(NextAction::StartProcessing(fresh)) && fresh@ == s.next_transaction,
        after == s.rollback(transaction).claim(claim_key(caller, key), now),
        after.ledger_state(claim_key(caller, key)) == (LedgerState::InFlight {
            transaction: s.next_transaction as u64,
        }),
{
    lemma_rollback_preserves_wf(s, transaction);
    lemma_claim_preserves_wf(s.rollback(transaction), claim_key(caller, key), now);
}

/// The key under which a form is submitted by a caller.
pub open spec fn form_claim(user_id: UserId, form: BodyData) -> ClaimKey {
    ClaimKey { caller: user_id@, key: form.idempotency_key@ }
}

/// Publishing leaves the store well formed, and says of the key what its
/// result says: completed after a success, as it was after a failure.
pub proof fn lemma_publish_outcome(
    before: StoreView,
    user_id: UserId,
    form: BodyData,
    issue_id: u128,
    flash_cookie: Seq<char>,
    now: i64,
    result: Result<HttpResponse, PublishError>,
    after: StoreView,
)
    requires
        before.wf(),
        publish_outcome(before, user_id, form, issue_id, flash_cookie, now, result, after),
    ensures
        after.wf(),
        after.subscribers == before.subscribers,
        extends(after.issues, before.issues),
        extends(after.outbox, before.outbox),
        result matches Ok(response) ==> after.ledger_state(form_claim(user_id, form))
            is Completed && decode_spec(
            after.ledger_state(form_claim(user_id, form))->snapshot,
        ) == Ok::<HttpResponseView, CodecError>(response@),
        result is Err ==> {
            &&& after.ledger_state(form_claim(user_id, form)) == before.ledger_state(
                form_claim(user_id, form),
            )
            &&& after.ledger == before.ledger
            &&& after.issues == before.issues
            &&& after.outbox == before.outbox
        },
{
    let claim = form_claim(user_id, form);
    if is_valid_key(form.idempotency_key@) && before.ledger_state(claim) == LedgerState::Absent
        && before.next_transaction < u64::MAX {
        lemma_abandoned(before, claim);
        if !before.issue_id_taken(issue_id) && encodable(accepted(flash_cookie)) {
            let issue = issue_of(
                issue_id,
                form.title@,
                form.text_content@,
                form.html_content@,
                now,
            );
            lemma_decode_inverts_encode(accepted(flash_cookie));
            lemma_published(before, claim, now, issue, encode_spec(accepted(flash_cookie)));
        }
    }
}

/// At most once, for the whole action. After a form was published under a
/// key, every later submission by the same caller under the same key,
/// whatever else it carries and after whatever steps of other requests,
/// returns the first response and leaves the store exactly as it found it:
/// no second issue, no second set of outbox rows.
pub proof fn law_publish_at_most_once(
    before: StoreView,
    user_id: UserId,
    form: BodyData,
    issue_id: u128,
    flash_cookie: Seq<char>,
    now: i64,
    first: Result<HttpResponse, PublishError>,
    published: StoreView,
    steps: Seq<Step>,
    again: BodyData,
    other_issue_id: u128,
    other_flash_cookie: Seq<char>,
    later: i64,
    second: Result<HttpResponse, PublishError>,
    after: StoreView,
)
    requires
        before.wf(),
        publish_outcome(before, user_id, form, issue_id, flash_cookie, now, first, published),
        first is Ok,
        again.idempotency_key@ == form.idempotency_key@,
        publish_outcome(
            published.run(steps),
            user_id,
            again,
            other_issue_id,
            other_flash_cookie,
            later,
            second,
            after,
        ),
    ensures
        second matches Ok(replayed) && replayed@ == first.unwrap()@,
        after == published.run(steps),
{
    let claim = form_claim(user_id, form);
    lemma_publish_outcome(before, user_id, form, issue_id, flash_cookie, now, first, published);
    lemma_run_keeps_completed(published, steps, claim);
    assert(form_claim(user_id, again) == claim);
}

/// Rollback frees the key, for the whole action. A submission that fails,
/// at whatever step, leaves no row for its key and nothing in the issues or
/// the outbox; the same submission made again, with the fault gone, is
/// treated as a fresh claim and publishes the issue.
pub proof fn law_failed_publish_frees_the_key(
    before: StoreView,
    user_id: UserId,
    form: BodyData,
    issue_id: u128,
    flash_cookie: Seq<char>,
    now: i64,
    failed: Result<HttpResponse, PublishError>,
    left: StoreView,
    fresh_issue_id: u128,
    later: i64,
    retried: Result<HttpResponse, PublishError>,
    after: StoreView,
)
    requires
        before.wf(),
        is_valid_key(form.idempotency_key@),
        before.ledger_state(form_claim(user_id, form)) == LedgerState::Absent,
        publish_outcome(before, user_id, form, issue_id, flash_cookie, now, failed, left),
        failed is Err,
        left.next_transaction < u64::MAX,
        !left.issue_id_taken(fresh_issue_id),
        encodable(accepted(flash_cookie)),
        publish_outcome(left, user_id, form, fresh_issue_id, flash_cookie, later, retried, after),
    ensures
        left.ledger_state(form_claim(user_id, form)) == LedgerState::Absent,
        left.issues == before.issues,
        left.outbox == before.outbox,
        retried matches Ok(response) && response@ == accepted(flash_cookie),
        after.issues == before.issues.push(
            issue_of(fresh_issue_id, form.title@, form.text_content@, form.html_content@, later),
        ),
{
    lemma_publish_outcome(before, user_id, form, issue_id, flash_cookie, now, failed, left);
}

/// Whether no step of a run is taken under the transaction.
pub open spec fn taken_by_others(steps: Seq<Step>, transaction: u64) -> bool {
    forall|i: int| 0 <= i < steps.len() ==> (#[trigger] steps[i]).transaction() != Some(
        transaction,
    )
}

/// Whether no step of a run changes who is subscribed or confirmed.
pub open spec fn leaves_subscriptions(steps: Seq<Step>) -> bool {
    forall|i: int| 0 <= i < steps.len() ==> !(#[trigger] steps[i]).touches_subscriptions()
}

/// The state in which a transaction that has inserted an issue under a free
/// id comes to enqueue its deliveries, other requests having taken their
/// steps meanwhile.
pub open spec fn at_enqueue(
    s: StoreView,
    transaction: u64,
    issue: IssueView,
    meanwhile: Seq<Step>,
) -> StoreView {
    s.apply(Step::StoreIssue { transaction, issue }).run(meanwhile)
}

/// The state in which that transaction, having enqueued the deliveries,
/// comes to save its response, other requests having taken more steps.
pub open spec fn at_commit(
    s: StoreView,
    transaction: u64,
    issue: IssueView,
    meanwhile: Seq<Step>,
    then: Seq<Step>,
) -> StoreView {
    at_enqueue(s, transaction, issue, meanwhile).apply(
        Step::Enqueue { transaction, issue_id: issue.id },
    ).run(then)
}

/// Atomic enqueue. A transaction inserts an issue under a free id, enqueues
/// its deliveries, and saves its response, while other requests take
/// whatever steps they take under transactions of their own, changes of
/// subscriptions among them. Then, once the response is saved, the issue is
/// committed and the outbox rows that refer to it are one for each
/// subscriber that was confirmed when the deliveries were enqueued, in table
/// order: none more, none fewer. Where no subscription changed between the
/// enqueuing and the commit, those are the subscribers confirmed at the
/// commit.
pub proof fn law_atomic_enqueue(
    s: StoreView,
    transaction: u64,
    issue: IssueView,
    meanwhile: Seq<Step>,
    then: Seq<Step>,
    claim: ClaimKey,
    response: HttpResponseView,
)
    requires
        s.wf(),
        s.is_open(transaction),
        !s.issue_id_taken(issue.id),
        taken_by_others(meanwhile, transaction),
        taken_by_others(then, transaction),
        at_commit(s, transaction, issue, meanwhile, then).can_save(transaction, claim, response),
    ensures
        ({
            let enqueued_at = at_enqueue(s, transaction, issue, meanwhile);
            let committed_at = at_commit(s, transaction, issue, meanwhile, then);
            let committed = committed_at.apply(Step::SaveResponse { transaction, claim, response });
            &&& committed.has_issue(issue.id)
            &&& !committed_at.has_issue(issue.id)
            &&& deliveries_of(committed_at.outbox, issue.id) == Seq::<DeliveryView>::empty()
            &&& deliveries_of(committed.outbox, issue.id) == deliveries_to_confirmed(
                enqueued_at.subscribers,
                issue.id,
            )
            &&& deliveries_of(committed.outbox, issue.id).len() == confirmed_count(
                enqueued_at.subscribers,
            )
            &&& leaves_subscriptions(then) ==> deliveries_of(committed.outbox, issue.id).len()
                == confirmed_count(committed_at.subscribers)
        }),
{
    let id = issue.id;
    let s1 = s.apply(Step::StoreIssue { transaction, issue });
    assert(s1 == s.stage_issue(transaction, issue));
    lemma_staging_a_free_id(s, transaction, issue);
    let before = s1.pending(transaction).deliveries;
    let s2 = s1.run(meanwhile);
    lemma_run_by_others_keeps_alone(s1, meanwhile, transaction, id);
    let added = deliveries_to_confirmed(s2.subscribers, id);
    let s3 = s2.apply(Step::Enqueue { transaction, issue_id: id });
    assert(s2.issue_visible(transaction, id));
    assert(s3 == s2.stage_deliveries(transaction, id));
    lemma_stage_deliveries_preserves_wf(s2, transaction, id);
    assert(stages_alone(s3, transaction, id)) by {
        let k = s2.slot(transaction);
        lemma_slot_is_unique(s2, k);
        lemma_slot_is_unique(s3, k);
        crate::store::model::lemma_has_issue_depends_on_issues(s2, s3, id);
        lemma_stages_issue_depends_on_issues(s2.in_flight[k], s3.in_flight[k], id);
        assert forall|t: int|
            0 <= t < s3.in_flight.len() && (#[trigger] s3.in_flight[t]).stages_issue(
                id,
            ) implies t == s3.slot(transaction) by {
            if t != k {
                assert(s3.in_flight[t] == s2.in_flight[t]);
            }
        }
    }
    let s4 = s3.run(then);
    lemma_run_by_others_keeps_alone(s3, then, transaction, id);
    assert(s4.pending(transaction).deliveries == before + added);
    // Nothing in the outbox refers to the issue before the commit.
    lemma_alone_means_no_rows(s4, transaction, id);
    let s5 = s4.apply(Step::SaveResponse { transaction, claim, response });
    assert(s5 == s4.commit(transaction, encode_spec(response)));
    lemma_commit_publishes_issues(s4, transaction, encode_spec(response), id);
    // What the commit appends are the rows made for the confirmed subscribers.
    lemma_deliveries_of_concat(s4.outbox, before + added, id);
    lemma_deliveries_of_concat(before, added, id);
    lemma_deliveries_to_confirmed(s2.subscribers, id);
    lemma_deliveries_of_all(added, id);
    assert(Seq::<DeliveryView>::empty() + (Seq::<DeliveryView>::empty() + added) =~= added);
    if leaves_subscriptions(then) {
        lemma_run_keeps_subscriptions(s3, then);
    }
}

/// No rows without the commit. When the transaction that inserted an issue
/// under a free id and enqueued its deliveries is rolled back instead, the
/// issue is not committed and no outbox row refers to it.
pub proof fn law_rollback_leaves_no_rows(
    s: StoreView,
    transaction: u64,
    issue: IssueView,
    meanwhile: Seq<Step>,
    then: Seq<Step>,
)
    requires
        s.wf(),
        s.is_open(transaction),
        !s.issue_id_taken(issue.id),
        taken_by_others(meanwhile, transaction),
        taken_by_others(then, transaction),
    ensures
        ({
            let left = at_commit(s, transaction, issue, meanwhile, then).apply(
                Step::Rollback { transaction },
            );
            &&& !left.has_issue(issue.id)
            &&& deliveries_of(left.outbox, issue.id) == Seq::<DeliveryView>::empty()
            &&& !left.is_open(transaction)
        }),
{
    let id = issue.id;
    let s1 = s.apply(Step::StoreIssue { transaction, issue });
    lemma_staging_a_free_id(s, transaction, issue);
    let s2 = s1.run(meanwhile);
    lemma_run_by_others_keeps_alone(s1, meanwhile, transaction, id);
    let s3 = s2.apply(Step::Enqueue { transaction, issue_id: id });
    assert(s2.issue_visible(transaction, id));
    lemma_stage_deliveries_preserves_wf(s2, transaction, id);
    assert(stages_alone(s3, transaction, id)) by {
        let k = s2.slot(transaction);
        lemma_slot_is_unique(s2, k);
        lemma_slot_is_unique(s3, k);
        crate::store::model::lemma_has_issue_depends_on_issues(s2, s3, id);
        lemma_stages_issue_depends_on_issues(s2.in_flight[k], s3.in_flight[k], id);
        assert forall|t: int|
            0 <= t < s3.in_flight.len() && (#[trigger] s3.in_flight[t]).stages_issue(
                id,
            ) implies t == s3.slot(transaction) by {
            if t != k {
                assert(s3.in_flight[t] == s2.in_flight[t]);
            }
        }
    }
    let s4 = s3.run(then);
    lemma_run_by_others_keeps_alone(s3, then, transaction, id);
    lemma_alone_means_no_rows(s4, transaction, id);
    lemma_rollback_preserves_wf(s4, transaction);
    crate::store::model::lemma_has_issue_depends_on_issues(s4, s4.rollback(transaction), id);
}


/// One submission of the form: what it carried, what it returned, and how it
/// left the store.
pub struct Submission {
    pub form: BodyData,
    pub issue_id: u128,
    pub flash_cookie: Seq<char>,
    pub now: i64,
    pub result: Result<HttpResponse, PublishError>,
    pub after: StoreView,
}

/// The state that the submission at position `at` found: the state at the
/// start for the first, and for every other the state that the one before left.
pub open spec fn found_by(start: StoreView, submissions: Seq<Submission>, at: int) -> StoreView {
    if at == 0 {
        start
    } else {
        submissions[at - 1].after
    }
}

/// Whether the submissions were made by one caller under one key, one after
/// the other, each being what `publish_issue` does with what it carried on
/// the state it found.
pub open spec fn submitted_in_turn(
    start: StoreView,
    user_id: UserId,
    key: Seq<char>,
    submissions: Seq<Submission>,
) -> bool
    decreases submissions.len(),
{
    if submissions.len() == 0 {
        true
    } else {
        &&& submitted_in_turn(start, user_id, key, submissions.drop_last())
        &&& submissions.last().form.idempotency_key@ == key
        &&& submitted(
            found_by(start, submissions, submissions.len() - 1),
            user_id,
            submissions.last(),
        )
    }
}

/// Whether a submission is what `publish_issue` does with what it carried,
/// on the state it found.
#[verifier::opaque]
pub open spec fn submitted(found: StoreView, user_id: UserId, submission: Submission) -> bool {
    publish_outcome(
        found,
        user_id,
        submission.form,
        submission.issue_id,
        submission.flash_cookie,
        submission.now,
        submission.result,
        submission.after,
    )
}

/// The issue that a submission asks for.
pub open spec fn issue_asked(submission: Submission) -> IssueView {
    issue_of(
        submission.issue_id,
        submission.form.title@,
        submission.form.text_content@,
        submission.form.html_content@,
        submission.now,
    )
}

/// A submission that fails leaves the key, the issues, the outbox and the
/// subscriptions as it found them.
pub proof fn lemma_failed_submission(found: StoreView, user_id: UserId, submission: Submission)
    requires
        found.wf(),
        submitted(found, user_id, submission),
        submission.result is Err,
    ensures
        submission.after.wf(),
        submission.after.ledger_state(form_claim(user_id, submission.form)) == found.ledger_state(
            form_claim(user_id, submission.form),
        ),
        submission.after.issues == found.issues,
        submission.after.outbox == found.outbox,
        submission.after.subscribers == found.subscribers,
{
    reveal(submitted);
    lemma_publish_outcome(
        found,
        user_id,
        submission.form,
        submission.issue_id,
        submission.flash_cookie,
        submission.now,
        submission.result,
        submission.after,
    );
}

/// Submissions under a free key that all fail leave the key free and the
/// issues, the outbox and the subscriptions as they were.
pub proof fn lemma_failed_submissions(
    start: StoreView,
    user_id: UserId,
    key: Seq<char>,
    submissions: Seq<Submission>,
)
    requires
        start.wf(),
        start.ledger_state(ClaimKey { caller: user_id@, key }) == LedgerState::Absent,
        submitted_in_turn(start, user_id, key, submissions),
        forall|i: int| 0 <= i < submissions.len() ==> (#[trigger] submissions[i]).result is Err,
    ensures
        ({
            let left = found_by(start, submissions, submissions.len() as int);
            &&& left.wf()
            &&& left.ledger_state(ClaimKey { caller: user_id@, key }) == LedgerState::Absent
            &&& left.issues == start.issues
            &&& left.outbox == start.outbox
            &&& left.subscribers == start.subscribers
        }),
    decreases submissions.len(),
{
    if submissions.len() > 0 {
        let earlier = submissions.drop_last();
        let last = submissions.last();
        let at = submissions.len() - 1;
        lemma_earlier_in_turn(start, user_id, key, submissions);
        assert forall|i: int| 0 <= i < earlier.len() implies (#[trigger] earlier[i]).result
            is Err by {
            assert(earlier[i] == submissions[i]);
        }
        lemma_failed_submissions(start, user_id, key, earlier);
        assert(submissions[at] == last);
        assert(form_claim(user_id, last.form) == (ClaimKey { caller: user_id@, key }));
        lemma_failed_submission(found_by(start, submissions, at), user_id, last);
    }
}

/// A submission that succeeds under a free key publishes the issue it asks
/// for, with one outbox row for each confirmed subscriber, and completes
/// the key with the response it returns.
pub proof fn lemma_first_success(found: StoreView, user_id: UserId, submission: Submission)
    requires
        found.wf(),
        found.ledger_state(form_claim(user_id, submission.form)) == LedgerState::Absent,
        submitted(found, user_id, submission),
        submission.result is Ok,
    ensures
        submission.after.wf(),
        submission.after.issues == found.issues.push(issue_asked(submission)),
        submission.after.outbox == found.outbox + deliveries_to_confirmed(
            found.subscribers,
            submission.issue_id,
        ),
        submission.after.subscribers == found.subscribers,
        replays(submission.after, form_claim(user_id, submission.form), submission.result),
        is_valid_key(submission.form.idempotency_key@),
{
    reveal(submitted);
    lemma_publish_outcome(
        found,
        user_id,
        submission.form,
        submission.issue_id,
        submission.flash_cookie,
        submission.now,
        submission.result,
        submission.after,
    );
}

/// Whether the key is completed with the response of this result.
pub open spec fn replays(
    s: StoreView,
    claim: ClaimKey,
    result: Result<HttpResponse, PublishError>,
) -> bool {
    &&& result is Ok
    &&& s.ledger_state(claim) is Completed
    &&& decode_spec(s.ledger_state(claim)->snapshot) == Ok::<HttpResponseView, CodecError>(
        result.unwrap()@,
    )
}

/// A submission under a completed key returns the response that completed
/// it and leaves the store as it found it.
pub proof fn lemma_later_submission(
    found: StoreView,
    user_id: UserId,
    submission: Submission,
    earlier: Result<HttpResponse, PublishError>,
)
    requires
        found.wf(),
        is_valid_key(submission.form.idempotency_key@),
        replays(found, form_claim(user_id, submission.form), earlier),
        submitted(found, user_id, submission),
    ensures
        submission.result is Ok,
        submission.result.unwrap()@ == earlier.unwrap()@,
        submission.after == found,
{
    reveal(submitted);
}

/// What many submissions under one free key come to, once one of them has
/// succeeded.
pub open spec fn published_once(
    start: StoreView,
    user_id: UserId,
    key: Seq<char>,
    submissions: Seq<Submission>,
    first: int,
) -> bool {
    let last = submissions.last();
    let published = submissions[first];
    let rows = deliveries_to_confirmed(start.subscribers, published.issue_id);
    &&& last.after.wf()
    &&& is_valid_key(key)
    &&& last.after.issues == start.issues.push(issue_asked(published))
    &&& last.after.outbox == start.outbox + rows
    &&& rows.len() == confirmed_count(start.subscribers)
    &&& deliveries_of(rows, published.issue_id) == rows
    &&& last.after.subscribers == start.subscribers
    &&& start.issues.len() == 0 ==> last.after.issues.len() == 1
    &&& replays(last.after, ClaimKey { caller: user_id@, key }, published.result)
    &&& forall|i: int|
        first <= i < submissions.len() ==> (#[trigger] submissions[i]).result is Ok
            && submissions[i].result.unwrap()@ == published.result.unwrap()@
            && submissions[i].after == published.after
}

/// The submissions before the last are in turn as the whole was.
pub proof fn lemma_earlier_in_turn(
    start: StoreView,
    user_id: UserId,
    key: Seq<char>,
    submissions: Seq<Submission>,
)
    requires
        submissions.len() > 0,
        submitted_in_turn(start, user_id, key, submissions),
    ensures
        submitted_in_turn(start, user_id, key, submissions.drop_last()),
        found_by(start, submissions.drop_last(), submissions.len() - 1) == found_by(
            start,
            submissions,
            submissions.len() - 1,
        ),
        submissions.last().form.idempotency_key@ == key,
        submitted(
            found_by(start, submissions, submissions.len() - 1),
            user_id,
            submissions.last(),
        ),
{
    let earlier = submissions.drop_last();
    let at = submissions.len() - 1;
    if at > 0 {
        assert(earlier[at - 1] == submissions[at - 1]);
    }
}

/// Where the last of the submissions is the first that succeeds, it
/// publishes once.
pub proof fn lemma_published_by_the_last(
    start: StoreView,
    user_id: UserId,
    key: Seq<char>,
    submissions: Seq<Submission>,
)
    requires
        start.wf(),
        start.ledger_state(ClaimKey { caller: user_id@, key }) == LedgerState::Absent,
        submitted_in_turn(start, user_id, key, submissions),
        submissions.len() > 0,
        submissions.last().result is Ok,
        forall|i: int|
            0 <= i < submissions.len() - 1 ==> (#[trigger] submissions[i]).result is Err,
    ensures
        published_once(start, user_id, key, submissions, submissions.len() - 1),
{
    let at = submissions.len() - 1;
    let last = submissions.last();
    let earlier = submissions.drop_last();
    let found = found_by(start, submissions, at);
    lemma_earlier_in_turn(start, user_id, key, submissions);
    assert(form_claim(user_id, last.form) == (ClaimKey { caller: user_id@, key }));
    assert forall|i: int| 0 <= i < earlier.len() implies (#[trigger] earlier[i]).result
        is Err by {
        assert(earlier[i] == submissions[i]);
    }
    lemma_failed_submissions(start, user_id, key, earlier);
    lemma_first_success(found, user_id, last);
    lemma_deliveries_to_confirmed(start.subscribers, last.issue_id);
    lemma_deliveries_of_all(
        deliveries_to_confirmed(start.subscribers, last.issue_id),
        last.issue_id,
    );
    assert(submissions[at] == last);
}

/// Where the submissions before the last have published once, the last
/// changes nothing and returns what was published.
pub proof fn lemma_published_before_the_last(
    start: StoreView,
    user_id: UserId,
    key: Seq<char>,
    submissions: Seq<Submission>,
    first: int,
)
    requires
        start.wf(),
        submitted_in_turn(start, user_id, key, submissions),
        0 <= first < submissions.len() - 1,
        published_once(start, user_id, key, submissions.drop_last(), first),
    ensures
        published_once(start, user_id, key, submissions, first),
{
    let at = submissions.len() - 1;
    let last = submissions.last();
    let earlier = submissions.drop_last();
    let published = submissions[first];
    let found = found_by(start, submissions, at);
    lemma_earlier_in_turn(start, user_id, key, submissions);
    assert(form_claim(user_id, last.form) == (ClaimKey { caller: user_id@, key }));
    assert(earlier[first] == published);
    assert(earlier.last() == submissions[at - 1]);
    assert(found == earlier.last().after);
    lemma_later_submission(found, user_id, last, published.result);
    assert(submissions[at] == last);
    assert(earlier[at - 1].after == published.after);
    assert forall|i: int| first <= i < submissions.len() implies (
    #[trigger] submissions[i]).result is Ok && submissions[i].result.unwrap()@
        == published.result.unwrap()@ && submissions[i].after == published.after by {
        if i < at {
            assert(earlier[i] == submissions[i]);
        }
    }
}

/// One issue, however many submissions. Let a caller submit the form under
/// a key that is free, any number of times, one submission after the other,
/// and let `first` be the first of them that succeeds. Then, after the last
/// of them, the issues have grown by the one issue that submission asked
/// for and the outbox by one row for each subscriber that was confirmed,
/// each row carrying the id of that issue: not one issue and one set of rows
/// for each submission. Every submission from that one on succeeded, with
/// the same response.
pub proof fn law_one_issue_for_many_submissions(
    start: StoreView,
    user_id: UserId,
    key: Seq<char>,
    submissions: Seq<Submission>,
    first: int,
)
    requires
        start.wf(),
        start.ledger_state(ClaimKey { caller: user_id@, key }) == LedgerState::Absent,
        submitted_in_turn(start, user_id, key, submissions),
        0 <= first < submissions.len(),
        submissions[first].result is Ok,
        forall|i: int| 0 <= i < first ==> (#[trigger] submissions[i]).result is Err,
    ensures
        published_once(start, user_id, key, submissions, first),
    decreases submissions.len(),
{
    if first == submissions.len() - 1 {
        assert(submissions[first] == submissions.last());
        lemma_published_by_the_last(start, user_id, key, submissions);
    } else {
        let earlier = submissions.drop_last();
        lemma_earlier_in_turn(start, user_id, key, submissions);
        assert(earlier[first] == submissions[first]);
        assert forall|i: int| 0 <= i < first implies (#[trigger] earlier[i]).result is Err by {
            assert(earlier[i] == submissions[i]);
        }
        law_one_issue_for_many_submissions(start, user_id, key, earlier, first);
        lemma_published_before_the_last(start, user_id, key, submissions, first);
    }
}


} // verus!
