use zero2prod::http::HeaderPair;
use zero2prod::http::HttpResponse;
use zero2prod::idempotency::key::ValidationError;
use zero2prod::routes::admin::dashboard::AdminDashboardError;
use zero2prod::routes::admin::newsletter::post::PublishError;
use zero2prod::routes::error_chain_fmt;
use zero2prod::routes::login::post::LoginError;
use zero2prod::routes::subscriptions::SubscribeError;
use zero2prod::routes::ErrorTrace;

fn header(name: &str, value: &str) -> HeaderPair {
    HeaderPair { name: name.as_bytes().to_vec(), value: value.as_bytes().to_vec() }
}

fn trace() -> ErrorTrace {
    ErrorTrace {
        message: "Failed to store newsletter issue details".to_string(),
        causes: vec!["connection reset".to_string(), "broken pipe".to_string()],
    }
}

#[test]
fn an_error_without_causes_is_reported_with_an_empty_line() {
    assert_eq!(error_chain_fmt("Something went wrong", &vec![]), "Something went wrong\n\n");
    assert_eq!(error_chain_fmt("", &vec![]), "\n\n");
}

#[test]
fn every_cause_is_reported_under_its_heading() {
    let causes = vec!["first cause".to_string(), "second cause".to_string()];
    assert_eq!(
        error_chain_fmt("It failed", &causes),
        "It failed\n\nCaused by:\n\tfirst cause\nCaused by:\n\tsecond cause\n"
    );
}

#[test]
fn a_context_puts_the_error_before_its_causes() {
    let wrapped = ErrorTrace::new("broken pipe").context("connection reset").context("It failed");
    assert_eq!(wrapped.message, "It failed");
    assert_eq!(wrapped.causes, vec!["connection reset".to_string(), "broken pipe".to_string()]);
    assert_eq!(
        wrapped.chain(),
        vec!["It failed".to_string(), "connection reset".to_string(), "broken pipe".to_string()]
    );
    assert_eq!(ErrorTrace::new("alone").chain(), vec!["alone".to_string()]);
}

#[test]
fn an_unexpected_publish_error_speaks_with_the_voice_of_its_cause() {
    let error = PublishError::UnexpectedError(trace());
    assert_eq!(error.message(), "Failed to store newsletter issue details");
    assert_eq!(
        error.report(),
        "Failed to store newsletter issue details\n\n\
         Caused by:\n\tconnection reset\nCaused by:\n\tbroken pipe\n"
    );
    assert_eq!(
        error.into_response(),
        HttpResponse { status: 500, headers: vec![], body: vec![] }
    );
}

#[test]
fn a_publish_error_of_authentication_challenges_the_caller() {
    let error = PublishError::AuthError(trace());
    assert_eq!(error.message(), "Authentication failed");
    assert_eq!(
        error.report(),
        "Authentication failed\n\n\
         Caused by:\n\tFailed to store newsletter issue details\n\
         Caused by:\n\tconnection reset\nCaused by:\n\tbroken pipe\n"
    );
    assert_eq!(
        error.into_response(),
        HttpResponse {
            status: 401,
            headers: vec![header("www-authenticate", "Basic realm=\"publish\"")],
            body: vec![],
        }
    );
}

#[test]
fn a_publish_error_of_validation_is_the_clients() {
    let error = PublishError::ValidationError(ValidationError::TooLong);
    assert_eq!(error.message(), "The idempotency key must not be longer than 255 bytes");
    assert_eq!(error.report(), "The idempotency key must not be longer than 255 bytes\n\n");
    assert_eq!(
        error.into_response(),
        HttpResponse {
            status: 400,
            headers: vec![header("content-type", "text/plain; charset=utf-8")],
            body: b"The idempotency key must not be longer than 255 bytes".to_vec(),
        }
    );
}

#[test]
fn a_publish_error_of_conflict_can_be_retried() {
    let error = PublishError::ClaimConflictTimeout;
    assert_eq!(error.message(), "The request is still being processed");
    assert_eq!(error.report(), "The request is still being processed\n\n");
    assert_eq!(
        error.into_response(),
        HttpResponse { status: 503, headers: vec![], body: vec![] }
    );
}

#[test]
fn a_dashboard_error_gives_nothing_away() {
    let error = AdminDashboardError::UnexpectedError(ErrorTrace::new("no such user"));
    assert_eq!(error.message(), "Something went wrong");
    assert_eq!(error.report(), "Something went wrong\n\nCaused by:\n\tno such user\n");
    assert_eq!(
        error.into_response(),
        HttpResponse { status: 500, headers: vec![], body: vec![] }
    );
}

#[test]
fn a_login_error_leads_back_to_the_login_form() {
    let auth = LoginError::AuthError(ErrorTrace::new("unknown username"));
    assert_eq!(auth.message(), "Authentication failed");
    assert_eq!(auth.report(), "Authentication failed\n\nCaused by:\n\tunknown username\n");
    let unexpected = LoginError::UnexpectedError(ErrorTrace::new("pool timed out"));
    assert_eq!(unexpected.message(), "Something went wrong");
    assert_eq!(unexpected.report(), "Something went wrong\n\nCaused by:\n\tpool timed out\n");
    let expected = HttpResponse {
        status: 303,
        headers: vec![header("location", "/login")],
        body: vec![],
    };
    assert_eq!(auth.into_response(), expected);
    assert_eq!(unexpected.into_response(), expected);
}

#[test]
fn a_subscribe_error_answers_with_its_message() {
    let invalid = SubscribeError::ValidationError("empty name".to_string());
    assert_eq!(invalid.message(), "empty name");
    assert_eq!(invalid.report(), "empty name\n\n");
    assert_eq!(
        invalid.into_response(),
        HttpResponse {
            status: 400,
            headers: vec![header("content-type", "text/plain; charset=utf-8")],
            body: b"empty name".to_vec(),
        }
    );
    let failed = SubscribeError::UnexpectedError(
        ErrorTrace::new("relation does not exist"),
        "Failed to insert new subscriber in the database.".to_string(),
    );
    assert_eq!(failed.message(), "Failed to insert new subscriber in the database.");
    assert_eq!(
        failed.report(),
        "Failed to insert new subscriber in the database.\n\n\
         Caused by:\n\trelation does not exist\n"
    );
    assert_eq!(
        failed.into_response(),
        HttpResponse {
            status: 500,
            headers: vec![header("content-type", "text/plain; charset=utf-8")],
            body: b"Failed to insert new subscriber in the database.".to_vec(),
        }
    );
}
