//! Subscribing to the newsletter.

use crate::http::plain_text;
use crate::http::utf8;
use crate::http::HttpResponse;
use crate::http::STATUS_BAD_REQUEST;
use crate::http::STATUS_INTERNAL_SERVER_ERROR;
use crate::http::STATUS_OK;
use crate::routes::error_chain::chain_report;
use crate::routes::error_chain::error_chain_fmt;
use crate::routes::error_chain::ErrorTrace;
use crate::routes::error_chain::ErrorTraceView;
use crate::startup::ApplicationBaseUrl;
use crate::store::memory::PersistenceError;
use crate::store::memory::Store;
use crate::store::model::StoreView;
use crate::store::model::SubscriberView;
use crate::store::trace::Step;
use crate::trusted::is_alphanumeric;
use crate::trusted::is_random_uuid;
use crate::trusted::new_uuid;
use crate::trusted::now_utc;
use crate::trusted::random_alphanumeric;
use vstd::prelude::*;
use vstd::string::*;

verus! {

/// Why a subscription was not taken.
#[derive(Clone, Debug, PartialEq, Eq)]
pub enum SubscribeError {
    /// The form was not filled in as it has to be; the text says how.
    ValidationError(String),
    /// Something failed underneath; the text says at which step.
    UnexpectedError(ErrorTrace, String),
}

impl SubscribeError {
    /// What the error says of itself.
    pub open spec fn message_spec(&self) -> Seq<char> {
        match self {
            SubscribeError::ValidationError(text) => text@,
            SubscribeError::UnexpectedError(_, step) => step@,
        }
    }

    /// What the causes behind the error say, nearest first.
    pub open spec fn sources_spec(&self) -> Seq<Seq<char>> {
        match self {
            SubscribeError::ValidationError(_) => Seq::empty(),
            SubscribeError::UnexpectedError(trace, _) => seq![trace@.message] + trace@.causes,
        }
    }

    /// What the error says of itself.
    pub fn message(&self) -> (message: String)
        ensures
            message@ == self.message_spec(),
    {
        match self {
            SubscribeError::ValidationError(text) => text.clone(),
            SubscribeError::UnexpectedError(_, step) => step.clone(),
        }
    }

    /// The report for the log: the message, then the chain of causes.
    pub fn report(&self) -> (report: String)
        ensures
            report@ == chain_report(self.message_spec(), self.sources_spec()),
    {
        match self {
            SubscribeError::ValidationError(text) => {
                let none: Vec<String> = Vec::new();
                assert(crate::routes::error_chain::texts(none@) =~= Seq::<Seq<char>>::empty());
                error_chain_fmt(text.as_str(), &none)
            },
            SubscribeError::UnexpectedError(trace, step) => {
                let chain = trace.chain();
                error_chain_fmt(step.as_str(), &chain)
            },
        }
    }

    /// The response that the client gets: the message as plain text, as a
    /// client error when the form was at fault and as a server error otherwise.
    pub fn into_response(self) -> (response: HttpResponse)
        ensures
            response@ == plain_text(
                if self is ValidationError {
                    STATUS_BAD_REQUEST
                } else {
                    STATUS_INTERNAL_SERVER_ERROR
                },
                self.message_spec(),
            ),
    {
        match self {
            SubscribeError::ValidationError(text) => HttpResponse::text(
                STATUS_BAD_REQUEST,
                text.as_str(),
            ),
            SubscribeError::UnexpectedError(_, step) => HttpResponse::text(
                STATUS_INTERNAL_SERVER_ERROR,
                step.as_str(),
            ),
        }
    }
}

/// The mathematical content of a `SubscribeError`.
pub enum SubscribeErrorView {
    ValidationError(Seq<char>),
    UnexpectedError(ErrorTraceView, Seq<char>),
}

impl View for SubscribeError {
    type V = SubscribeErrorView;

    open spec fn view(&self) -> SubscribeErrorView {
        match self {
            SubscribeError::ValidationError(text) => SubscribeErrorView::ValidationError(text@),
            SubscribeError::UnexpectedError(trace, step) => SubscribeErrorView::UnexpectedError(
                trace@,
                step@,
            ),
        }
    }
}

/// Where a subscription stands: the step that is under way.
#[derive(Clone, Copy, Debug, PartialEq, Eq, Structural)]
pub enum Subscription {
    /// A transaction is being opened.
    Connecting,
    /// The subscriber is being saved.
    Inserting,
    /// The confirmation token is being stored.
    StoringToken,
    /// The transaction is being committed.
    Committing,
    /// The confirmation mail is being sent.
    Sending,
    /// The answer was given.
    Finished,
}

/// What to do next for a subscription.
#[derive(Debug, PartialEq, Eq)]
pub enum SubscribeAction {
    /// Open a transaction.
    Connect,
    /// Save the subscriber with this address and name, pending confirmation.
    InsertSubscriber { email: String, name: String },
    /// Store this token for the subscriber that was saved.
    StoreToken { subscription_token: String },
    /// Commit the transaction.
    Commit,
    /// Send this mail to this address.
    SendEmail { recipient: String, mail: ConfirmationEmail },
    /// Answer with this status.
    Answer(u16),
    /// Fail with this error.
    Fail(SubscribeError),
}

/// The mathematical content of a `SubscribeAction`.
pub enum SubscribePlan {
    Connect,
    InsertSubscriber { email: Seq<char>, name: Seq<char> },
    StoreToken { subscription_token: Seq<char> },
    Commit,
    SendEmail { recipient: Seq<char>, mail: MailView },
    Answer(u16),
    Fail(SubscribeErrorView),
}

impl View for SubscribeAction {
    type V = SubscribePlan;

    open spec fn view(&self) -> SubscribePlan {
        match self {
            SubscribeAction::Connect => SubscribePlan::Connect,
            SubscribeAction::InsertSubscriber { email, name } => SubscribePlan::InsertSubscriber {
                email: email@,
                name: name@,
            },
            SubscribeAction::StoreToken { subscription_token } => SubscribePlan::StoreToken {
                subscription_token: subscription_token@,
            },
            SubscribeAction::Commit => SubscribePlan::Commit,
            SubscribeAction::SendEmail { recipient, mail } => SubscribePlan::SendEmail {
                recipient: recipient@,
                mail: mail@,
            },
            SubscribeAction::Answer(status) => SubscribePlan::Answer(*status),
            SubscribeAction::Fail(e) => SubscribePlan::Fail(e@),
        }
    }
}

/// What is said when no transaction could be opened.
pub const CONNECT_FAILED: &'static str = "Failed to acquire a Postgres connection from the pool";

/// What is said when the subscriber could not be saved.
pub const INSERT_FAILED: &'static str = "Failed to insert new subscriber in the database.";

/// What is said when the token could not be stored.
pub const TOKEN_FAILED: &'static str =
    "Failed to store the confirmation token for a new subscriber.";

/// What is said when the transaction could not be committed.
pub const COMMIT_FAILED: &'static str =
    "Failed to commit SQL transaction to store a new subscriber.";

/// What is said when the mail could not be sent.
pub const SEND_FAILED: &'static str = "Failed to send a confirmation email.";

/// What is said of a name that is no subscriber's name, after the name.
pub const INVALID_NAME: &'static str = " is not a valid subscriber name.";

/// What is said of an address that is no subscriber's address, after the address.
pub const INVALID_EMAIL: &'static str = " is not a valid subscriber email.";

/// Whether a text can be a subscriber's address: written in UTF-8 it has an
/// `@` that is neither its first byte nor its last, so that something
/// stands before it and something after it.
pub open spec fn is_address(email: Seq<char>) -> bool {
    exists|i: int| 0 < i < utf8(email).len() - 1 && #[trigger] utf8(email)[i] == 64u8
}

/// What is wrong with the form, if anything is: a name without a character,
/// or else an address that cannot be one. The text names what was entered.
pub open spec fn subscriber_defect(name: Seq<char>, email: Seq<char>) -> Option<Seq<char>> {
    if name.len() == 0 {
        Some(name + INVALID_NAME@)
    } else if !is_address(email) {
        Some(email + INVALID_EMAIL@)
    } else {
        None
    }
}

/// Whether a text can be a subscriber's address.
pub fn is_subscriber_email(email: &str) -> (valid: bool)
    ensures
        valid == is_address(email@),
{
    let bytes = email.as_bytes();
    if bytes.len() < 3 {
        return false;
    }
    let mut i: usize = 1;
    while i < bytes.len() - 1
        invariant
            1 <= i <= bytes.len() - 1,
            bytes@ == utf8(email@),
            forall|j: int| 0 < j < i ==> #[trigger] utf8(email@)[j] != 64u8,
        decreases bytes.len() - i,
    {
        if bytes[i] == 64u8 {
            return true;
        }
        i = i + 1;
    }
    false
}

/// Checks what a subscriber entered: the name first, then the address.
///
/// The name has to have a character, and the address an `@` with something
/// before it and something after it. Where one of them has not, the text
/// that comes back names it.
pub fn validate_subscriber(name: &str, email: &str) -> (result: Result<(), String>)
    ensures
        match subscriber_defect(name@, email@) {
            Some(text) => result matches Err(said) && said@ == text,
            None => result is Ok,
        },
{
    if name.is_empty() {
        let mut said = String::from_str(name);
        said.append(INVALID_NAME);
        return Err(said);
    }
    if !is_subscriber_email(email) {
        let mut said = String::from_str(email);
        said.append(INVALID_EMAIL);
        return Err(said);
    }
    Ok(())
}

/// What a subscription is made of: what the subscriber entered, the token
/// drawn for it, and the address under which the application is reached.
pub struct SubscriptionView {
    pub email: Seq<char>,
    pub name: Seq<char>,
    pub subscription_token: Seq<char>,
    pub base_url: Seq<char>,
}

/// How a subscription begins: a form that does not validate is the client's
/// error, in the validator's words; a form that does has a transaction opened.
pub open spec fn subscribe_begin(name: Seq<char>, email: Seq<char>) -> (
    Subscription,
    SubscribePlan,
) {
    match subscriber_defect(name, email) {
        Some(text) => (
            Subscription::Finished,
            SubscribePlan::Fail(SubscribeErrorView::ValidationError(text)),
        ),
        None => (Subscription::Connecting, SubscribePlan::Connect),
    }
}

/// What the failure of a step makes of a subscription: it is unexpected,
/// and says at which step it happened.
pub open spec fn subscribe_failure(state: Subscription, cause: ErrorTraceView) -> Option<
    SubscribeErrorView,
> {
    match state {
        Subscription::Connecting => Some(
            SubscribeErrorView::UnexpectedError(cause, CONNECT_FAILED@),
        ),
        Subscription::Inserting => Some(SubscribeErrorView::UnexpectedError(cause, INSERT_FAILED@)),
        Subscription::StoringToken => Some(
            SubscribeErrorView::UnexpectedError(cause, TOKEN_FAILED@),
        ),
        Subscription::Committing => Some(
            SubscribeErrorView::UnexpectedError(cause, COMMIT_FAILED@),
        ),
        Subscription::Sending => Some(SubscribeErrorView::UnexpectedError(cause, SEND_FAILED@)),
        Subscription::Finished => None,
    }
}

/// What follows a step that succeeded. The subscriber that is saved is the
/// one of the form, the token that is stored is the one given, and the mail
/// goes to the address of the form with the link that carries that token.
pub open spec fn subscribe_success(state: Subscription, of: SubscriptionView) -> Option<
    (Subscription, SubscribePlan),
> {
    match state {
        Subscription::Connecting => Some(
            (
                Subscription::Inserting,
                SubscribePlan::InsertSubscriber { email: of.email, name: of.name },
            ),
        ),
        Subscription::Inserting => Some(
            (
                Subscription::StoringToken,
                SubscribePlan::StoreToken { subscription_token: of.subscription_token },
            ),
        ),
        Subscription::StoringToken => Some((Subscription::Committing, SubscribePlan::Commit)),
        Subscription::Committing => Some(
            (
                Subscription::Sending,
                SubscribePlan::SendEmail {
                    recipient: of.email,
                    mail: confirmation_mail(of.base_url, of.subscription_token),
                },
            ),
        ),
        Subscription::Sending => Some((Subscription::Finished, SubscribePlan::Answer(STATUS_OK))),
        Subscription::Finished => None,
    }
}

/// What a subscription does next, given the step that was under way and how
/// it ended. `None` once the answer was given.
pub open spec fn subscribe_step(
    state: Subscription,
    outcome: Result<(), ErrorTrace>,
    of: SubscriptionView,
) -> Option<(Subscription, SubscribePlan)> {
    match outcome {
        Ok(()) => subscribe_success(state, of),
        Err(cause) => match subscribe_failure(state, cause@) {
            Some(e) => Some((Subscription::Finished, SubscribePlan::Fail(e))),
            None => None,
        },
    }
}

/// Begins a subscription: validates the form, and has a transaction opened
/// where it is valid.
pub fn subscribe_start(form: &FormData) -> (begin: (Subscription, SubscribeAction))
    ensures
        (begin.0, begin.1@) == subscribe_begin(form.name@, form.email@),
{
    match validate_subscriber(form.name.as_str(), form.email.as_str()) {
        Ok(()) => (Subscription::Connecting, SubscribeAction::Connect),
        Err(said) => (
            Subscription::Finished,
            SubscribeAction::Fail(SubscribeError::ValidationError(said)),
        ),
    }
}

/// Takes how the last step of a subscription ended and says what to do next.
///
/// The steps follow one another: open a transaction, save the subscriber of
/// the form, store the token for it, commit, send the mail with the link
/// that carries the token to the address of the form, answer. The first
/// step that fails ends the subscription with the error of that step.
pub fn subscribe(
    state: Subscription,
    outcome: Result<(), ErrorTrace>,
    form: &FormData,
    subscription_token: &str,
    base_url: &ApplicationBaseUrl,
) -> (next: Option<(Subscription, SubscribeAction)>)
    ensures
        match next {
            Some((then, action)) => subscribe_step(
                state,
                outcome,
                SubscriptionView {
                    email: form.email@,
                    name: form.name@,
                    subscription_token: subscription_token@,
                    base_url: base_url@,
                },
            ) == Some((then, action@)),
            None => subscribe_step(
                state,
                outcome,
                SubscriptionView {
                    email: form.email@,
                    name: form.name@,
                    subscription_token: subscription_token@,
                    base_url: base_url@,
                },
            ) is None,
        },
{
    match outcome {
        Ok(()) => match state {
            Subscription::Connecting => Some(
                (
                    Subscription::Inserting,
                    SubscribeAction::InsertSubscriber {
                        email: form.email.clone(),
                        name: form.name.clone(),
                    },
                ),
            ),
            Subscription::Inserting => Some(
                (
                    Subscription::StoringToken,
                    SubscribeAction::StoreToken {
                        subscription_token: String::from_str(subscription_token),
                    },
                ),
            ),
            Subscription::StoringToken => Some((Subscription::Committing, SubscribeAction::Commit)),
            Subscription::Committing => Some(
                (
                    Subscription::Sending,
                    SubscribeAction::SendEmail {
                        recipient: form.email.clone(),
                        mail: confirmation_email(base_url, subscription_token),
                    },
                ),
            ),
            Subscription::Sending => Some(
                (Subscription::Finished, SubscribeAction::Answer(STATUS_OK)),
            ),
            Subscription::Finished => None,
        },
        Err(cause) => {
            let error = match state {
                Subscription::Connecting => SubscribeError::UnexpectedError(
                    cause,
                    String::from_str(CONNECT_FAILED),
                ),
                Subscription::Inserting => SubscribeError::UnexpectedError(
                    cause,
                    String::from_str(INSERT_FAILED),
                ),
                Subscription::StoringToken => SubscribeError::UnexpectedError(
                    cause,
                    String::from_str(TOKEN_FAILED),
                ),
                Subscription::Committing => SubscribeError::UnexpectedError(
                    cause,
                    String::from_str(COMMIT_FAILED),
                ),
                Subscription::Sending => SubscribeError::UnexpectedError(
                    cause,
                    String::from_str(SEND_FAILED),
                ),
                Subscription::Finished => {
                    return None;
                },
            };
            Some((Subscription::Finished, SubscribeAction::Fail(error)))
        },
    }
}

/// The form that asks for a subscription.
#[derive(Clone, Debug, PartialEq, Eq)]
pub struct FormData {
    pub email: String,
    pub name: String,
}

/// How many characters a subscription token has.
pub const TOKEN_LENGTH: usize = 25;

/// Whether a text is a subscription token: 25 letters and digits of ASCII.
pub open spec fn is_subscription_token(token: Seq<char>) -> bool {
    &&& token.len() == TOKEN_LENGTH
    &&& forall|i: int| 0 <= i < token.len() ==> is_alphanumeric(#[trigger] token[i])
}

/// Generates a random subscription token: 25 characters, case sensitive.
pub fn generate_subscription_token() -> (token: String)
    ensures
        is_subscription_token(token@),
{
    let mut token = String::new();
    let mut drawn: usize = 0;
    while drawn < TOKEN_LENGTH
        invariant
            drawn <= TOKEN_LENGTH,
            token@.len() == drawn,
            forall|i: int| 0 <= i < token@.len() ==> is_alphanumeric(#[trigger] token@[i]),
        decreases TOKEN_LENGTH - drawn,
    {
        let next = random_alphanumeric();
        token.append(next.as_str());
        drawn = drawn + 1;
    }
    token
}

/// The mail that asks a new subscriber to confirm.
#[derive(Clone, Debug, PartialEq, Eq)]
pub struct ConfirmationEmail {
    pub subject: String,
    pub html_body: String,
    pub plain_body: String,
}

/// The mathematical content of a `ConfirmationEmail`.
pub struct MailView {
    pub subject: Seq<char>,
    pub html_body: Seq<char>,
    pub plain_body: Seq<char>,
}

impl View for ConfirmationEmail {
    type V = MailView;

    open spec fn view(&self) -> MailView {
        MailView {
            subject: self.subject@,
            html_body: self.html_body@,
            plain_body: self.plain_body@,
        }
    }
}

/// The mail that asks to confirm the subscription with this token.
pub open spec fn confirmation_mail(base_url: Seq<char>, token: Seq<char>) -> MailView {
    MailView {
        subject: "Welcome!"@,
        html_body: html_body(confirmation_link(base_url, token)),
        plain_body: plain_body(confirmation_link(base_url, token)),
    }
}

/// The link that confirms the subscription with this token.
pub open spec fn confirmation_link(base_url: Seq<char>, token: Seq<char>) -> Seq<char> {
    base_url + "/subscriptions/confirm?subscription_token="@ + token
}

/// The plain text of the mail.
pub open spec fn plain_body(link: Seq<char>) -> Seq<char> {
    "Welcome to our newsletter!\n Visti "@ + link + " to confirm your subscription."@
}

/// The HTML of the mail.
pub open spec fn html_body(link: Seq<char>) -> Seq<char> {
    "Welcome to our newsletter!<br/> Click <a href=\""@ + link
        + "\">here</a> to confirm your subscription."@
}

/// Writes the mail that asks a new subscriber to confirm: the link is the
/// base address, the confirmation path and the token, and both bodies carry it.
pub fn confirmation_email(base_url: &ApplicationBaseUrl, subscription_token: &str) -> (mail:
    ConfirmationEmail)
    ensures
        mail@ == confirmation_mail(base_url@, subscription_token@),
{
    let mut link = base_url.0.clone();
    link.append("/subscriptions/confirm?subscription_token=");
    link.append(subscription_token);
    let mut plain = String::from_str("Welcome to our newsletter!\n Visti ");
    plain.append(link.as_str());
    plain.append(" to confirm your subscription.");
    let mut html = String::from_str("Welcome to our newsletter!<br/> Click <a href=\"");
    html.append(link.as_str());
    html.append("\">here</a> to confirm your subscription.");
    ConfirmationEmail { subject: String::from_str("Welcome!"), html_body: html, plain_body: plain }
}

/// The subscription that a name and an address make, not yet confirmed.
pub open spec fn new_subscription(
    id: u128,
    email: Seq<char>,
    name: Seq<char>,
    now: i64,
) -> SubscriberView {
    SubscriberView { id, email, name, subscribed_at: now, confirmed: false }
}

/// What the saving of a new subscriber returns and how it leaves the store:
/// the subscription is added and its id returned where neither the id nor
/// the address is subscribed yet; otherwise nothing changes and the call
/// fails with `DuplicateSubscriber`.
pub open spec fn subscribed_as(
    before: StoreView,
    subscriber: SubscriberView,
    result: Result<u128, PersistenceError>,
    after: StoreView,
) -> bool {
    &&& after == before.apply(Step::Subscribe { subscriber })
    &&& if before.has_subscriber(subscriber.id, subscriber.email) {
        result == Err::<u128, PersistenceError>(PersistenceError::DuplicateSubscriber)
    } else {
        result == Ok::<u128, PersistenceError>(subscriber.id)
    }
}

/// Saves a new subscriber, pending confirmation, under a fresh random id and
/// with the time of the call, and returns the id.
///
/// Some version 4 id and some time were drawn. Where neither that id nor
/// the address is subscribed yet the subscription is added with them; the
/// call fails only where one of the two is, and then changes nothing.
pub fn insert_subscriber(store: &mut Store, email: &str, name: &str) -> (result: Result<
    u128,
    PersistenceError,
>)
    requires
        old(store).wf(),
    ensures
        final(store).wf(),
        exists|id: u128, now: i64|
            {
                &&& is_random_uuid(id)
                &&& #[trigger] subscribed_as(
                    old(store)@,
                    new_subscription(id, email@, name@, now),
                    result,
                    final(store)@,
                )
            },
        match result {
            Ok(id) => {
                &&& !old(store)@.has_subscriber(id, email@)
                &&& final(store)@ == old(store)@.subscribe(
                    new_subscription(
                        id,
                        email@,
                        name@,
                        final(store)@.subscribers.last().subscribed_at,
                    ),
                )
            },
            Err(e) => e == PersistenceError::DuplicateSubscriber && final(store)@ == old(store)@,
        },
{
    let id = new_uuid();
    let now = now_utc();
    let result = match store.add_subscriber(
        id,
        String::from_str(email),
        String::from_str(name),
        now,
    ) {
        Ok(()) => Ok(id),
        Err(e) => Err(e),
    };
    assert(subscribed_as(old(store)@, new_subscription(id, email@, name@, now), result, store@));
    result
}

} // verus!
