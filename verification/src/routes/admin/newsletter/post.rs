//! Publishing a newsletter issue, once.
//!
//! The form carries an idempotency key. Under a key that is new to the
//! caller the issue is stored and a delivery enqueued for every confirmed
//! subscriber, all in the transaction that claimed the key, and the response
//! is saved with it. Under a key that was used before, the saved response is
//! returned and nothing is written.

use crate::authentication::middleware::UserId;
use crate::http::bytes_of;
use crate::http::plain_text;
use crate::http::redirect_with_cookie;
use crate::http::utf8;
use crate::http::HeaderView;
use crate::http::HttpResponse;
use crate::http::HttpResponseView;
use crate::http::STATUS_BAD_REQUEST;
use crate::http::STATUS_INTERNAL_SERVER_ERROR;
use crate::http::STATUS_SERVICE_UNAVAILABLE;
use crate::http::STATUS_UNAUTHORIZED;
use crate::idempotency::key::is_valid_key;
use crate::idempotency::key::key_defect;
use crate::idempotency::key::IdempotencyKey;
use crate::idempotency::key::ValidationError;
use crate::idempotency::persistence::save_response;
use crate::idempotency::persistence::try_processing;
use crate::idempotency::persistence::NextAction;
use crate::idempotency::protocol::IdempotencyError;
use crate::idempotency::snapshot::decode_spec;
use crate::idempotency::snapshot::encodable;
use crate::idempotency::snapshot::encode_spec;
use crate::idempotency::snapshot::CodecError;
use crate::routes::admin::newsletter::flow::failure;
use crate::routes::admin::newsletter::flow::plain;
use crate::routes::admin::newsletter::flow::publish_start;
use crate::routes::admin::newsletter::flow::publish_step;
use crate::routes::admin::newsletter::flow::steps_to_go;
use crate::routes::admin::newsletter::flow::Claimed;
use crate::routes::admin::newsletter::flow::PublishAction;
use crate::routes::admin::newsletter::flow::PublishEvent;
use crate::routes::admin::newsletter::flow::PublishPlan;
use crate::routes::admin::newsletter::flow::PublishState;
use crate::routes::admin::newsletter::flow::CLAIM_FAILED;
use crate::routes::admin::newsletter::flow::SAVE_FAILED;
use crate::routes::admin::newsletter::flow::STORE_FAILED;
use crate::routes::error_chain::chain_report;
use crate::routes::error_chain::error_chain_fmt;
use crate::routes::error_chain::texts;
use crate::routes::error_chain::ErrorTrace;
use crate::routes::error_chain::ErrorTraceView;
use crate::routes::flash::flash_cookie;
use crate::routes::flash::CookieKey;
use crate::store::memory::claim_key;
use crate::store::memory::NewsletterIssue;
use crate::store::memory::PersistenceError;
use crate::store::memory::Store;
use crate::store::memory::Transaction;
use crate::store::model::deliveries_to_confirmed;
use crate::store::model::lemma_publish_steps;
use crate::store::model::lemma_working;
use crate::store::model::ClaimKey;
use crate::store::model::DeliveryView;
use crate::store::model::IssueView;
use crate::store::model::LedgerState;
use crate::store::model::StoreView;
use crate::store::trace::Step;
use crate::trusted::is_random_uuid;
use crate::trusted::new_uuid;
use vstd::prelude::*;
use vstd::string::*;

verus! {

/// The form that asks for an issue to be published.
#[derive(Clone, Debug, PartialEq, Eq)]
pub struct BodyData {
    pub title: String,
    pub html_content: String,
    pub text_content: String,
    pub idempotency_key: String,
}

/// Why an issue was not published.
#[derive(Clone, Debug, PartialEq, Eq)]
pub enum PublishError {
    /// The idempotency key is empty or too long.
    ValidationError(ValidationError),
    /// The caller is not who it has to be.
    AuthError(ErrorTrace),
    /// Another request holds the key and did not finish in time.
    ClaimConflictTimeout,
    /// The store failed.
    UnexpectedError(ErrorTrace),
}

/// The mathematical content of a `PublishError`.
pub enum PublishErrorView {
    ValidationError(ValidationError),
    AuthError(ErrorTraceView),
    ClaimConflictTimeout,
    UnexpectedError(ErrorTraceView),
}

impl View for PublishError {
    type V = PublishErrorView;

    open spec fn view(&self) -> PublishErrorView {
        match self {
            PublishError::ValidationError(e) => PublishErrorView::ValidationError(*e),
            PublishError::AuthError(trace) => PublishErrorView::AuthError(trace@),
            PublishError::ClaimConflictTimeout => PublishErrorView::ClaimConflictTimeout,
            PublishError::UnexpectedError(trace) => PublishErrorView::UnexpectedError(trace@),
        }
    }
}

/// The response to a caller that has to authenticate first.
pub open spec fn challenge() -> HttpResponseView {
    HttpResponseView {
        status: STATUS_UNAUTHORIZED,
        headers: seq![
            HeaderView {
                name: utf8("www-authenticate"@),
                value: utf8("Basic realm=\"publish\""@),
            },
        ],
        body: Seq::<u8>::empty(),
    }
}

/// A response that carries a status and nothing else.
pub open spec fn bare(status: u16) -> HttpResponseView {
    HttpResponseView { status, headers: Seq::empty(), body: Seq::empty() }
}

impl PublishErrorView {
    /// What the error says of itself.
    pub open spec fn message(self) -> Seq<char> {
        match self {
            PublishErrorView::ValidationError(e) => e.message_spec(),
            PublishErrorView::AuthError(_) => "Authentication failed"@,
            PublishErrorView::ClaimConflictTimeout => "The request is still being processed"@,
            PublishErrorView::UnexpectedError(trace) => trace.message,
        }
    }

    /// What the causes behind the error say, nearest first.
    pub open spec fn sources(self) -> Seq<Seq<char>> {
        match self {
            PublishErrorView::ValidationError(_) => Seq::empty(),
            PublishErrorView::AuthError(trace) => seq![trace.message] + trace.causes,
            PublishErrorView::ClaimConflictTimeout => Seq::empty(),
            PublishErrorView::UnexpectedError(trace) => trace.causes,
        }
    }

    /// The response that the client gets.
    pub open spec fn response(self) -> HttpResponseView {
        match self {
            PublishErrorView::ValidationError(e) => plain_text(
                STATUS_BAD_REQUEST,
                e.message_spec(),
            ),
            PublishErrorView::AuthError(_) => challenge(),
            PublishErrorView::ClaimConflictTimeout => bare(STATUS_SERVICE_UNAVAILABLE),
            PublishErrorView::UnexpectedError(_) => bare(STATUS_INTERNAL_SERVER_ERROR),
        }
    }
}

impl PublishError {
    /// What the error says of itself.
    pub fn message(&self) -> (message: String)
        ensures
            message@ == self@.message(),
    {
        match self {
            PublishError::ValidationError(e) => String::from_str(e.message()),
            PublishError::AuthError(_) => String::from_str("Authentication failed"),
            PublishError::ClaimConflictTimeout => String::from_str(
                "The request is still being processed",
            ),
            PublishError::UnexpectedError(trace) => trace.message.clone(),
        }
    }

    /// The report for the log: the message, then the chain of causes.
    pub fn report(&self) -> (report: String)
        ensures
            report@ == chain_report(self@.message(), self@.sources()),
    {
        let none: Vec<String> = Vec::new();
        assert(texts(none@) =~= Seq::<Seq<char>>::empty());
        match self {
            PublishError::ValidationError(e) => error_chain_fmt(e.message(), &none),
            PublishError::AuthError(trace) => {
                let chain = trace.chain();
                error_chain_fmt("Authentication failed", &chain)
            },
            PublishError::ClaimConflictTimeout => error_chain_fmt(
                "The request is still being processed",
                &none,
            ),
            PublishError::UnexpectedError(trace) => error_chain_fmt(
                trace.message.as_str(),
                &trace.causes,
            ),
        }
    }

    /// The response that the client gets.
    ///
    /// A malformed key is the client's error and is told what is wrong with
    /// it. A caller that is not authenticated is challenged. A key that is
    /// held by a request in flight is a server error that a retry may cure.
    /// A failure of the store is a server error that gives nothing away.
    pub fn into_response(self) -> (response: HttpResponse)
        ensures
            response@ == self@.response(),
    {
        match self {
            PublishError::ValidationError(e) => HttpResponse::text(
                STATUS_BAD_REQUEST,
                e.message(),
            ),
            PublishError::AuthError(_) => {
                let mut response = HttpResponse::empty(STATUS_UNAUTHORIZED);
                response.push_header(
                    bytes_of("www-authenticate"),
                    bytes_of("Basic realm=\"publish\""),
                );
                assert(response@.headers =~= challenge().headers);
                response
            },
            PublishError::ClaimConflictTimeout => HttpResponse::empty(STATUS_SERVICE_UNAVAILABLE),
            PublishError::UnexpectedError(_) => HttpResponse::empty(STATUS_INTERNAL_SERVER_ERROR),
        }
    }
}

/// The error that says at which step the store failed, with the store's own
/// words as its cause.
pub open spec fn store_failure(step: Seq<char>, e: PersistenceError) -> PublishErrorView {
    failure(step, plain(e.message_spec()))
}

/// The response to a form that was accepted: the client is sent to the
/// newsletter page and given the flash cookie to show there.
pub open spec fn accepted(flash_cookie: Seq<char>) -> HttpResponseView {
    redirect_with_cookie("/admin/newsletter"@, flash_cookie)
}

/// Builds the response to a form that was accepted.
pub fn accepted_response(flash_cookie: &str) -> (response: HttpResponse)
    ensures
        response@ == accepted(flash_cookie@),
{
    HttpResponse::redirect_setting("/admin/newsletter", flash_cookie)
}

/// The issue that a form asks for, under the id given to it.
pub open spec fn issue_of(
    id: u128,
    title: Seq<char>,
    text_content: Seq<char>,
    html_content: Seq<char>,
    now: i64,
) -> IssueView {
    IssueView { id, title, text_content, html_content, published_at: now }
}

/// What the insert of an issue under a transaction returns and how it leaves
/// the store: the issue is staged and its id returned where the transaction
/// is open and the id free; otherwise nothing changes, and the error says
/// which of the two was not so, the closed transaction first.
pub open spec fn inserted_under(
    before: StoreView,
    transaction: u64,
    issue: IssueView,
    result: Result<u128, PersistenceError>,
    after: StoreView,
) -> bool {
    &&& after == before.apply(Step::StoreIssue { transaction, issue })
    &&& if before.is_open(transaction) && !before.issue_id_taken(issue.id) {
        result == Ok::<u128, PersistenceError>(issue.id)
    } else if !before.is_open(transaction) {
        result == Err::<u128, PersistenceError>(PersistenceError::TransactionClosed)
    } else {
        result == Err::<u128, PersistenceError>(PersistenceError::DuplicateIssue)
    }
}

/// Inserts the issue under the transaction, with the id given.
///
/// Refused, with the store unchanged, when the transaction is not open or
/// the id is taken.
pub fn store_newsletter_issue(
    store: &mut Store,
    transaction: &Transaction,
    id: u128,
    title: &str,
    text_content: &str,
    html_content: &str,
    now: i64,
) -> (result: Result<u128, PersistenceError>)
    requires
        old(store).wf(),
    ensures
        final(store).wf(),
        inserted_under(
            old(store)@,
            transaction@,
            issue_of(id, title@, text_content@, html_content@, now),
            result,
            final(store)@,
        ),
        match result {
            Ok(stored) => {
                &&& stored == id
                &&& old(store)@.is_open(transaction@)
                &&& !old(store)@.issue_id_taken(id)
                &&& final(store)@ == old(store)@.stage_issue(
                    transaction@,
                    issue_of(id, title@, text_content@, html_content@, now),
                )
            },
            Err(e) => {
                &&& final(store)@ == old(store)@
                &&& e == (if !old(store)@.is_open(transaction@) {
                    PersistenceError::TransactionClosed
                } else {
                    PersistenceError::DuplicateIssue
                })
                &&& !old(store)@.is_open(transaction@) || old(store)@.issue_id_taken(id)
            },
        },
{
    let issue = NewsletterIssue {
        id,
        title: String::from_str(title),
        text_content: String::from_str(text_content),
        html_content: String::from_str(html_content),
        published_at: now,
    };
    match store.stage_issue(transaction, issue) {
        Ok(()) => Ok(id),
        Err(e) => Err(e),
    }
}

/// Inserts the issue under the transaction, with a fresh random id, and
/// returns the id.
///
/// Some version 4 id was drawn, and the call did with it what
/// `store_newsletter_issue` does: where the transaction is open and the id
/// free the issue is staged under it, and the call fails only where the
/// transaction is closed or the id taken.
pub fn insert_newsletter_issue(
    store: &mut Store,
    transaction: &Transaction,
    title: &str,
    text_content: &str,
    html_content: &str,
    now: i64,
) -> (result: Result<u128, PersistenceError>)
    requires
        old(store).wf(),
    ensures
        final(store).wf(),
        exists|id: u128|
            {
                &&& is_random_uuid(id)
                &&& #[trigger] inserted_under(
                    old(store)@,
                    transaction@,
                    issue_of(id, title@, text_content@, html_content@, now),
                    result,
                    final(store)@,
                )
            },
        match result {
            Ok(id) => {
                &&& old(store)@.is_open(transaction@)
                &&& !old(store)@.issue_id_taken(id)
                &&& final(store)@ == old(store)@.stage_issue(
                    transaction@,
                    issue_of(id, title@, text_content@, html_content@, now),
                )
            },
            Err(e) => {
                &&& final(store)@ == old(store)@
                &&& e == PersistenceError::TransactionClosed <==> !old(store)@.is_open(
                    transaction@,
                )
                &&& e == PersistenceError::TransactionClosed || e
                    == PersistenceError::DuplicateIssue
            },
        },
{
    let id = new_uuid();
    let result = store_newsletter_issue(
        store,
        transaction,
        id,
        title,
        text_content,
        html_content,
        now,
    );
    assert(inserted_under(
        old(store)@,
        transaction@,
        issue_of(id, title@, text_content@, html_content@, now),
        result,
        store@,
    ));
    result
}

/// Enqueues, in one step, a delivery of the issue to every subscriber that is
/// confirmed at this moment.
///
/// Where no subscriber is confirmed there is nothing to enqueue, and the
/// call succeeds whatever the issue. Otherwise every row refers to the
/// issue, which the transaction has to see: it is committed, or the
/// transaction itself has inserted it. Refused, with the store unchanged,
/// when the transaction is not open, or when there are rows to make and the
/// transaction cannot see the issue.
pub fn enqueue_delivery_tasks(store: &mut Store, transaction: &Transaction, issue_id: u128) -> (
    result: Result<(), PersistenceError>
)
    requires
        old(store).wf(),
    ensures
        final(store).wf(),
        final(store)@ == old(store)@.apply(Step::Enqueue { transaction: transaction@, issue_id }),
        match result {
            Ok(()) => {
                &&& old(store)@.is_open(transaction@)
                &&& old(store)@.can_enqueue(transaction@, issue_id)
                &&& final(store)@ == old(store)@.stage_deliveries(transaction@, issue_id)
            },
            Err(e) => {
                &&& final(store)@ == old(store)@
                &&& e == (if !old(store)@.is_open(transaction@) {
                    PersistenceError::TransactionClosed
                } else {
                    PersistenceError::UnknownIssue
                })
                &&& !old(store)@.is_open(transaction@) || !old(store)@.can_enqueue(
                    transaction@,
                    issue_id,
                )
            },
        },
{
    match store.stage_deliveries(transaction, issue_id) {
        Ok(_) => Ok(()),
        Err(e) => Err(e),
    }
}

/// What publishing returns and how it leaves the store, for each state that
/// the ledger can be in for the caller's key.
pub open spec fn publish_outcome(
    before: StoreView,
    user_id: UserId,
    form: BodyData,
    issue_id: u128,
    flash_cookie: Seq<char>,
    now: i64,
    result: Result<HttpResponse, PublishError>,
    after: StoreView,
) -> bool {
    let claim = ClaimKey { caller: user_id@, key: form.idempotency_key@ };
    let issue = issue_of(issue_id, form.title@, form.text_content@, form.html_content@, now);
    if !is_valid_key(form.idempotency_key@) {
        &&& result matches Err(e)
        &&& e@ == PublishErrorView::ValidationError(key_defect(form.idempotency_key@))
        &&& after == before
    } else {
        match before.ledger_state(claim) {
            LedgerState::Completed { snapshot } => {
                &&& result matches Ok(response)
                &&& decode_spec(snapshot) == Ok::<HttpResponseView, CodecError>(response@)
                &&& after == before
            },
            LedgerState::InFlight { transaction } => {
                &&& result matches Err(e)
                &&& e@ == PublishErrorView::ClaimConflictTimeout
                &&& after == before
            },
            LedgerState::Absent => if before.next_transaction >= u64::MAX {
                &&& result matches Err(e)
                &&& e@ == store_failure(CLAIM_FAILED@, PersistenceError::TransactionsExhausted)
                &&& after == before
            } else if before.issue_id_taken(issue_id) {
                &&& result matches Err(e)
                &&& e@ == store_failure(STORE_FAILED@, PersistenceError::DuplicateIssue)
                &&& after == before.abandoned()
            } else if !encodable(accepted(flash_cookie)) {
                &&& result matches Err(e)
                &&& e@ == store_failure(SAVE_FAILED@, PersistenceError::UnstorableResponse)
                &&& after == before.abandoned()
            } else {
                &&& result matches Ok(response)
                &&& response@ == accepted(flash_cookie)
                &&& after == before.published(
                    claim,
                    now,
                    issue,
                    encode_spec(accepted(flash_cookie)),
                )
            },
        }
    }
}

/// Publishes the issue that the form asks for, unless the caller's key was
/// used before.
///
/// - A key that is empty or too long: `ValidationError`, nothing touched.
/// - A key with a saved response: that response as it was saved, nothing
///   touched.
/// - A key held by a request in flight: `ClaimConflictTimeout`, nothing
///   touched.
/// - A free key: the issue is stored under `issue_id` with one delivery for
///   each subscriber confirmed now, the response is saved under the key, and
///   all of it is committed at once. If a step fails, the transaction is
///   rolled back: the key is free again and nothing of the attempt is left
///   but the transaction number it used up.
pub fn publish_issue(
    store: &mut Store,
    user_id: UserId,
    form: BodyData,
    issue_id: u128,
    flash_cookie: &str,
    now: i64,
) -> (result: Result<HttpResponse, PublishError>)
    requires
        old(store).wf(),
    ensures
        final(store).wf(),
        publish_outcome(
            old(store)@,
            user_id,
            form,
            issue_id,
            flash_cookie@,
            now,
            result,
            final(store)@,
        ),
{
    let ghost before = store@;
    let ghost claim = ClaimKey { caller: user_id@, key: form.idempotency_key@ };
    let ghost issue = issue_of(issue_id, form.title@, form.text_content@, form.html_content@, now);
    let ghost nothing_staged = Seq::<IssueView>::empty();
    let ghost nothing_enqueued = Seq::<DeliveryView>::empty();
    let ghost enqueued = deliveries_to_confirmed(before.subscribers, issue_id);
    let BodyData { title, html_content, text_content, idempotency_key } = form;
    let key = match IdempotencyKey::parse(idempotency_key) {
        Ok(key) => key,
        Err(e) => {
            return Err(PublishError::ValidationError(e));
        },
    };
    assert(claim_key(user_id, key) == claim);
    let begin = publish_start();
    let mut state = begin.0;
    let mut action = begin.1;
    let mut open: Option<Transaction> = None;
    loop
        invariant
            before == old(store)@,
            before.wf(),
            store.wf(),
            claim == claim_key(user_id, key),
            claim == (ClaimKey { caller: user_id@, key: form.idempotency_key@ }),
            is_valid_key(form.idempotency_key@),
            issue == issue_of(issue_id, title@, text_content@, html_content@, now),
            issue == issue_of(
                issue_id,
                form.title@,
                form.text_content@,
                form.html_content@,
                now,
            ),
            enqueued == deliveries_to_confirmed(before.subscribers, issue_id),
            nothing_staged == Seq::<IssueView>::empty(),
            nothing_enqueued == Seq::<DeliveryView>::empty(),
            match action@ {
                PublishPlan::Claim => {
                    &&& state == PublishState::Claiming
                    &&& open is None
                    &&& store@ == before
                },
                PublishPlan::StoreIssue => {
                    &&& state == PublishState::Storing
                    &&& at_work(before, claim, open, action@)
                    &&& store@ == before.working(claim, now, nothing_staged, nothing_enqueued)
                },
                PublishPlan::Enqueue => {
                    &&& state == PublishState::Enqueuing
                    &&& at_work(before, claim, open, action@)
                    &&& !before.issue_id_taken(issue_id)
                    &&& store@ == before.working(
                        claim,
                        now,
                        nothing_staged.push(issue),
                        nothing_enqueued,
                    )
                },
                PublishPlan::Save(response) => {
                    &&& state == PublishState::Saving
                    &&& at_work(before, claim, open, action@)
                    &&& !before.issue_id_taken(issue_id)
                    &&& response == accepted(flash_cookie@)
                    &&& store@ == before.working(claim, now, nothing_staged.push(issue), enqueued)
                },
                PublishPlan::RollBack(e) => {
                    &&& at_work(before, claim, open, action@)
                    &&& before.issue_id_taken(issue_id)
                    &&& e == store_failure(STORE_FAILED@, PersistenceError::DuplicateIssue)
                    &&& store@ == before.working(claim, now, nothing_staged, nothing_enqueued)
                },
                PublishPlan::Answer(response) => {
                    ||| {
                        &&& before.ledger_state(claim) matches LedgerState::Completed { snapshot }
                        &&& decode_spec(snapshot) == Ok::<HttpResponseView, CodecError>(response)
                        &&& store@ == before
                    }
                    ||| {
                        &&& before.ledger_state(claim) == LedgerState::Absent
                        &&& before.next_transaction < u64::MAX
                        &&& !before.issue_id_taken(issue_id)
                        &&& encodable(accepted(flash_cookie@))
                        &&& response == accepted(flash_cookie@)
                        &&& store@ == before.published(
                            claim,
                            now,
                            issue,
                            encode_spec(accepted(flash_cookie@)),
                        )
                    }
                },
                PublishPlan::Fail(e) => {
                    ||| {
                        &&& before.ledger_state(claim) is InFlight
                        &&& e == PublishErrorView::ClaimConflictTimeout
                        &&& store@ == before
                    }
                    ||| {
                        &&& before.ledger_state(claim) == LedgerState::Absent
                        &&& before.next_transaction >= u64::MAX
                        &&& e == store_failure(
                            CLAIM_FAILED@,
                            PersistenceError::TransactionsExhausted,
                        )
                        &&& store@ == before
                    }
                    ||| {
                        &&& before.ledger_state(claim) == LedgerState::Absent
                        &&& before.next_transaction < u64::MAX
                        &&& !before.issue_id_taken(issue_id)
                        &&& !encodable(accepted(flash_cookie@))
                        &&& e == store_failure(SAVE_FAILED@, PersistenceError::UnstorableResponse)
                        &&& store@ == before.abandoned()
                    }
                },
            },
        decreases steps_to_go(state),
    {
        proof {
            assert(nothing_enqueued + enqueued =~= enqueued);
            match action@ {
                PublishPlan::StoreIssue => {
                    lemma_working(before, claim, now, nothing_staged, nothing_enqueued);
                    lemma_issue_ids_after_claim(before, claim, now, issue_id);
                },
                PublishPlan::RollBack(_) => {
                    lemma_working(before, claim, now, nothing_staged, nothing_enqueued);
                },
                PublishPlan::Enqueue => {
                    lemma_working(before, claim, now, nothing_staged.push(issue), nothing_enqueued);
                    assert(nothing_staged.push(issue)[0].id == issue_id);
                },
                PublishPlan::Save(_) => {
                    lemma_working(before, claim, now, nothing_staged.push(issue), enqueued);
                    lemma_publish_steps(
                        before,
                        claim,
                        now,
                        issue,
                        encode_spec(accepted(flash_cookie@)),
                    );
                    assert(before.issues + nothing_staged.push(issue) =~= before.issues.push(
                        issue,
                    ));
                },
                _ => {},
            }
        }
        let event = match action {
            PublishAction::Answer(response) => {
                return Ok(response);
            },
            PublishAction::Fail(e) => {
                return Err(e);
            },
            PublishAction::RollBack(e) => {
                match open {
                    Some(transaction) => {
                        store.rollback(transaction);
                    },
                    None => {},
                }
                return Err(e);
            },
            PublishAction::Claim => match try_processing(store, &key, user_id, now) {
                Ok(NextAction::StartProcessing(transaction)) => {
                    assert(before.claim(claim, now) == before.working(
                        claim,
                        now,
                        nothing_staged,
                        nothing_enqueued,
                    ));
                    open = Some(transaction);
                    PublishEvent::Claimed(Ok(Claimed::Started))
                },
                Ok(NextAction::ReturnSavedResponse(saved)) => PublishEvent::Claimed(
                    Ok(Claimed::Replayed(saved)),
                ),
                Err(e) => PublishEvent::Claimed(Err(e)),
            },
            PublishAction::StoreIssue => match &open {
                Some(transaction) => match store_newsletter_issue(
                    store,
                    transaction,
                    issue_id,
                    title.as_str(),
                    text_content.as_str(),
                    html_content.as_str(),
                    now,
                ) {
                    Ok(_) => PublishEvent::IssueStored(Ok(())),
                    Err(e) => PublishEvent::IssueStored(Err(ErrorTrace::new(e.message()))),
                },
                None => PublishEvent::IssueStored(
                    Err(ErrorTrace::new(PersistenceError::TransactionClosed.message())),
                ),
            },
            PublishAction::Enqueue => match &open {
                Some(transaction) => match enqueue_delivery_tasks(store, transaction, issue_id) {
                    Ok(()) => PublishEvent::Enqueued(Ok(())),
                    Err(e) => PublishEvent::Enqueued(Err(ErrorTrace::new(e.message()))),
                },
                None => PublishEvent::Enqueued(
                    Err(ErrorTrace::new(PersistenceError::TransactionClosed.message())),
                ),
            },
            PublishAction::Save(response) => {
                let held = open;
                open = None;
                match held {
                    Some(transaction) => PublishEvent::ResponseSaved(
                        save_response(store, transaction, &key, user_id, response),
                    ),
                    None => PublishEvent::ResponseSaved(Err(IdempotencyError::NotClaimed)),
                }
            },
        };
        match publish_step(state, event, flash_cookie) {
            Some(next) => {
                state = next.0;
                action = next.1;
            },
            None => {
                return Err(PublishError::ClaimConflictTimeout);
            },
        }
    }
}

/// Whether the transaction that claimed the key is open and at work.
pub open spec fn at_work(
    before: StoreView,
    claim: ClaimKey,
    open: Option<Transaction>,
    action: PublishPlan,
) -> bool {
    &&& before.ledger_state(claim) == LedgerState::Absent
    &&& before.next_transaction < u64::MAX
    &&& open matches Some(transaction)
    &&& transaction@ == before.next_transaction
}

/// Claiming a key takes no issue id and frees none.
pub proof fn lemma_issue_ids_after_claim(s: StoreView, claim: ClaimKey, now: i64, id: u128)
    ensures
        s.claim(claim, now).issue_id_taken(id) == s.issue_id_taken(id),
{
    let after = s.claim(claim, now);
    crate::store::model::lemma_has_issue_depends_on_issues(s, after, id);
    let last = s.in_flight.len() as int;
    if s.has_staged_issue(id) {
        let t = choose|t: int|
            0 <= t < s.in_flight.len() && (#[trigger] s.in_flight[t]).stages_issue(id);
        assert(after.in_flight[t] == s.in_flight[t]);
    }
    if after.has_staged_issue(id) {
        let t = choose|t: int|
            0 <= t < after.in_flight.len() && (#[trigger] after.in_flight[t]).stages_issue(id);
        if t == last {
            assert(after.in_flight[last].issues.len() == 0);
        } else {
            assert(after.in_flight[t] == s.in_flight[t]);
        }
    }
}

/// What the next page tells the administrator after an issue was accepted.
pub const ACCEPTED_MESSAGE: &'static str =
    "The newsletter issue has been accepted - emails will go out shortly.";

/// Publishes the issue that the form asks for, unless the caller's key was
/// used before.
///
/// The issue gets a fresh random id and the response carries the signed flash
/// cookie. Some version 4 id was drawn, and the call did with it and with
/// that cookie what `publish_issue` does.
pub fn publish_newsletter(
    store: &mut Store,
    cookie_key: &CookieKey,
    user_id: UserId,
    form: BodyData,
    now: i64,
) -> (result: Result<HttpResponse, PublishError>)
    requires
        old(store).wf(),
    ensures
        final(store).wf(),
        exists|issue_id: u128|
            {
                &&& is_random_uuid(issue_id)
                &&& #[trigger] publish_outcome(
                    old(store)@,
                    user_id,
                    form,
                    issue_id,
                    flash_cookie(cookie_key@, ACCEPTED_MESSAGE@),
                    now,
                    result,
                    final(store)@,
                )
            },
{
    let issue_id = new_uuid();
    let cookie = cookie_key.flash(ACCEPTED_MESSAGE);
    let result = publish_issue(store, user_id, form, issue_id, cookie.as_str(), now);
    assert(publish_outcome(
        old(store)@,
        user_id,
        form,
        issue_id,
        flash_cookie(cookie_key@, ACCEPTED_MESSAGE@),
        now,
        result,
        store@,
    ));
    result
}

} // verus!
