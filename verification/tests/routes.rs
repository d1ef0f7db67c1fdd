use zero2prod::authentication::reject_anonymous_users;
use zero2prod::authentication::AuthError;
use zero2prod::authentication::UserId;
use zero2prod::http::HeaderPair;
use zero2prod::http::HttpResponse;
use zero2prod::routes::admin::dashboard::admin_dashboard;
use zero2prod::routes::admin::dashboard::AdminDashboardError;
use zero2prod::routes::admin::logout::log_out;
use zero2prod::routes::admin::newsletter::get::send_newsletter;
use zero2prod::routes::admin::password::get::change_password_form;
use zero2prod::routes::admin::password::post::change_password;
use zero2prod::routes::admin::password::post::passwords_match;
use zero2prod::routes::admin::password::post::FormData;
use zero2prod::routes::admin::password::post::PasswordAction;
use zero2prod::routes::admin::password::post::PasswordChange;
use zero2prod::routes::admin::password::post::PasswordEvent;
use zero2prod::routes::flash::compose;
use zero2prod::routes::flash::render_flash;
use zero2prod::routes::flash::CookieKey;
use zero2prod::routes::health_check::healt_check;
use zero2prod::routes::login::get::login_form;
use zero2prod::routes::login::post::login;
use zero2prod::routes::login::post::login_redirect_on_err;
use zero2prod::routes::login::post::LoginAction;
use zero2prod::routes::login::post::LoginError;
use zero2prod::routes::login::post::LoginEvent;
use zero2prod::routes::login::post::LoginState;
use zero2prod::routes::subscriptions::confirmation_email;
use zero2prod::routes::subscriptions::generate_subscription_token;
use zero2prod::routes::subscriptions::is_subscriber_email;
use zero2prod::routes::subscriptions::subscribe;
use zero2prod::routes::subscriptions::subscribe_start;
use zero2prod::routes::subscriptions::validate_subscriber;
use zero2prod::routes::subscriptions::FormData as SubscriptionForm;
use zero2prod::routes::subscriptions::SubscribeAction;
use zero2prod::routes::subscriptions::SubscribeError;
use zero2prod::routes::subscriptions::Subscription;
use zero2prod::routes::subscriptions_confirm::confirm;
use zero2prod::routes::subscriptions_confirm::confirmed;
use zero2prod::routes::subscriptions_confirm::Confirmation;
use zero2prod::routes::subscriptions_confirm::TokenLookup;
use zero2prod::routes::ErrorTrace;
use zero2prod::startup::ApplicationBaseUrl;

fn header(name: &str, value: &str) -> HeaderPair {
    HeaderPair { name: name.as_bytes().to_vec(), value: value.as_bytes().to_vec() }
}

fn key_bytes() -> Vec<u8> {
    (0..64).collect()
}

fn cookie_key() -> CookieKey {
    CookieKey::new(key_bytes()).unwrap()
}

fn body(response: &HttpResponse) -> String {
    String::from_utf8(response.body.clone()).unwrap()
}

/// The message that a signed flash cookie carries, and what is written behind it.
fn flash_of(response: &HttpResponse) -> (String, String) {
    assert_eq!(response.headers.len(), 2);
    assert_eq!(response.headers[1].name, b"set-cookie".to_vec());
    let sent = String::from_utf8(response.headers[1].value.clone()).unwrap();
    let parsed = cookie::Cookie::parse_encoded(sent.clone()).unwrap().into_owned();
    assert_eq!(parsed.name(), "_flash");
    let path = parsed.path().unwrap_or("").to_string();
    let jar = cookie::CookieJar::new();
    let verified = jar.signed(&cookie::Key::from(&key_bytes())).verify(parsed).unwrap();
    (verified.value().to_string(), path)
}

#[test]
fn get_health_check_returns_200() {
    let response = healt_check();
    assert_eq!(response.status, 200);
    assert!(response.headers.is_empty());
    assert!(response.body.is_empty());
}

#[test]
fn non_existing_user_is_rejected() {
    let rejected = reject_anonymous_users(None).unwrap_err();
    assert_eq!(
        rejected,
        HttpResponse { status: 303, headers: vec![header("location", "/login")], body: vec![] }
    );
    assert_eq!(reject_anonymous_users(Some(UserId(7))), Ok(UserId(7)));
}

#[test]
fn a_flash_message_is_shown_in_italics() {
    assert_eq!(render_flash(None), "");
    assert_eq!(render_flash(Some("Authentication failed")), "<p><i>Authentication failed</i></p>");
    assert_eq!(compose("<a>", "b", "</a>"), "<a>b</a>");
}

#[test]
fn the_login_form_shows_the_message_left_for_it() {
    let plain = login_form(None);
    assert_eq!(plain.status, 200);
    assert_eq!(plain.headers, vec![header("content-type", "text/html; charset=utf-8")]);
    let page = body(&plain);
    assert!(page.starts_with("<!DOCTYPE html>\n<html lang=\"en\">\n<head>"));
    assert!(page.contains("<title>Login</title>"));
    assert!(page.contains("<body>\n    \n    <form action=\"/login\" method=\"post\">"));
    assert!(page.ends_with("<button type=\"submit\">Login</button>\n    </form>\n</body> </html>"));

    let flashed = body(&login_form(Some("Authentication failed")));
    assert!(flashed.contains(
        "<body>\n    <p><i>Authentication failed</i></p>\n    \
         <form action=\"/login\" method=\"post\">"
    ));
    assert_eq!(flashed.len(), page.len() + "<p><i>Authentication failed</i></p>".len());
}

#[test]
fn the_password_form_shows_the_message_left_for_it() {
    let page = body(&change_password_form(Some("Your password has been changed.")));
    assert!(page.contains("<title>Change Password</title>"));
    assert!(page.contains("<p><i>Your password has been changed.</i></p>"));
    assert!(page.contains("name=\"new_password_check\""));
    assert!(page.ends_with("<p><a href=\"/admin/dashboard\">&lt;- Back</a></p>\n</body>\n</html>"));
    assert!(!body(&change_password_form(None)).contains("<p><i>"));
}

#[test]
fn the_newsletter_form_shows_the_message_left_for_it() {
    let page = body(&send_newsletter(Some(
        "The newsletter issue has been accepted - emails will go out shortly.",
    )));
    assert!(page.contains("<title>Send Newsletter</title>"));
    assert!(page.contains(
        "<p><i>The newsletter issue has been accepted - emails will go out shortly.</i></p>"
    ));
    assert!(page.contains("<form action=\"/admin/newsletter\" method=\"post\">"));
    assert!(!body(&send_newsletter(None)).contains("<p><i>"));
}

#[test]
fn the_dashboard_greets_the_user() {
    let response = admin_dashboard(Ok("admin".to_string())).unwrap();
    assert_eq!(response.status, 200);
    let page = body(&response);
    assert!(page.contains("<title>Admin dashboard</title>"));
    assert!(page.contains("<p>Welcome admin!</p>"));
    assert!(page.contains("<li><a href=\"/admin/newsletter\">Send newsletter</a></li>"));

    let failed = admin_dashboard(Err(ErrorTrace::new("no such user")));
    assert_eq!(
        failed,
        Err(AdminDashboardError::UnexpectedError(ErrorTrace::new("no such user")))
    );
}

#[test]
fn logging_out_ends_the_session_and_says_so() {
    let outcome = log_out(Some(UserId(1)), &cookie_key());
    assert!(outcome.end_session);
    assert_eq!(outcome.response.status, 303);
    assert_eq!(outcome.response.headers[0], header("location", "/login"));
    let (message, path) = flash_of(&outcome.response);
    assert_eq!(message, "You have successfully logged out.");
    assert_eq!(path, "/");

    let anonymous = log_out(None, &cookie_key());
    assert!(!anonymous.end_session);
    assert_eq!(
        anonymous.response,
        HttpResponse { status: 303, headers: vec![header("location", "/login")], body: vec![] }
    );
}

#[test]
fn a_login_goes_through_the_session_to_the_dashboard() {
    let key = cookie_key();
    let (state, action) =
        login(LoginState::Validating, LoginEvent::Validated(Ok(UserId(5))), &key).unwrap();
    assert_eq!(state, LoginState::SavingSession);
    assert!(matches!(action, LoginAction::SaveSession(UserId(5))));
    let (state, action) = login(state, LoginEvent::SessionSaved(Ok(())), &key).unwrap();
    assert_eq!(state, LoginState::Finished);
    match action {
        LoginAction::Answer(response) => assert_eq!(
            response,
            HttpResponse {
                status: 303,
                headers: vec![header("location", "/admin/dashboard")],
                body: vec![],
            }
        ),
        other => panic!("expected the way to the dashboard, got {:?}", other),
    }
    assert!(login(state, LoginEvent::SessionSaved(Ok(())), &key).is_none());
    assert!(login(LoginState::Validating, LoginEvent::SessionSaved(Ok(())), &key).is_none());
}

#[test]
fn a_failed_login_leads_back_with_a_message() {
    let key = cookie_key();
    let refused = AuthError::InvalidCredentials(ErrorTrace::new("unknown username"));
    let (state, action) =
        login(LoginState::Validating, LoginEvent::Validated(Err(refused)), &key).unwrap();
    assert_eq!(state, LoginState::Finished);
    match action {
        LoginAction::Reject(response, error) => {
            assert_eq!(response.headers[0], header("location", "/login"));
            assert_eq!(flash_of(&response), ("Authentication failed".to_string(), String::new()));
            assert_eq!(
                error,
                LoginError::AuthError(ErrorTrace {
                    message: "Invalid credentials.".to_string(),
                    causes: vec!["unknown username".to_string()],
                })
            );
        }
        other => panic!("expected a rejection, got {:?}", other),
    }

    let broken = AuthError::UnexpectedError(ErrorTrace::new("pool timed out"));
    let (_, action) =
        login(LoginState::Validating, LoginEvent::Validated(Err(broken)), &key).unwrap();
    match action {
        LoginAction::Reject(response, error) => {
            assert_eq!(flash_of(&response).0, "Something went wrong");
            assert_eq!(error, LoginError::UnexpectedError(ErrorTrace::new("pool timed out")));
        }
        other => panic!("expected a rejection, got {:?}", other),
    }

    let unsaved = LoginEvent::SessionSaved(Err(ErrorTrace::new("redis is down")));
    let (state, action) = login(LoginState::SavingSession, unsaved, &key).unwrap();
    assert_eq!(state, LoginState::Finished);
    match action {
        LoginAction::Reject(response, error) => {
            assert_eq!(flash_of(&response).0, "Something went wrong");
            assert_eq!(error, LoginError::UnexpectedError(ErrorTrace::new("redis is down")));
        }
        other => panic!("expected a rejection, got {:?}", other),
    }
}

#[test]
fn login_redirect_on_err_carries_the_message_of_the_error() {
    let action =
        login_redirect_on_err(LoginError::AuthError(ErrorTrace::new("no")), &cookie_key());
    match action {
        LoginAction::Reject(response, error) => {
            assert_eq!(response.status, 303);
            assert_eq!(flash_of(&response).0, "Authentication failed");
            assert_eq!(error, LoginError::AuthError(ErrorTrace::new("no")));
        }
        other => panic!("expected a rejection, got {:?}", other),
    }
}

fn answer_of(action: PasswordAction) -> String {
    match action {
        PasswordAction::Answer(response) => {
            assert_eq!(response.status, 303);
            assert_eq!(response.headers[0], header("location", "/admin/password"));
            flash_of(&response).0
        }
        other => panic!("expected an answer, got {:?}", other),
    }
}

#[test]
fn two_different_new_passwords_are_sent_back() {
    let form = FormData {
        current_password: "old".to_string(),
        new_password: "new".to_string(),
        new_password_check: "New".to_string(),
    };
    assert!(!passwords_match(&form));
    let event = PasswordEvent::Read { passwords_match: passwords_match(&form) };
    let (state, action) = change_password(PasswordChange::Submitted, event, &cookie_key()).unwrap();
    assert_eq!(state, PasswordChange::Finished);
    assert_eq!(
        answer_of(action),
        "You entered two different new passwords - the field values must match."
    );
}

#[test]
fn a_change_of_password_goes_step_by_step() {
    let key = cookie_key();
    let form = FormData {
        current_password: "old".to_string(),
        new_password: "new".to_string(),
        new_password_check: "new".to_string(),
    };
    let event = PasswordEvent::Read { passwords_match: passwords_match(&form) };
    let (state, action) = change_password(PasswordChange::Submitted, event, &key).unwrap();
    assert_eq!(state, PasswordChange::FetchingUsername);
    assert!(matches!(action, PasswordAction::FetchUsername));
    let (state, action) =
        change_password(state, PasswordEvent::Username(Ok("admin".to_string())), &key).unwrap();
    assert_eq!(state, PasswordChange::Validating);
    match action {
        PasswordAction::Validate { username } => assert_eq!(username, "admin"),
        other => panic!("expected the check of the password, got {:?}", other),
    }
    let (state, action) = change_password(state, PasswordEvent::Validated(Ok(())), &key).unwrap();
    assert_eq!(state, PasswordChange::Changing);
    assert!(matches!(action, PasswordAction::Change));
    let (state, action) = change_password(state, PasswordEvent::Changed(Ok(())), &key).unwrap();
    assert_eq!(state, PasswordChange::Finished);
    assert_eq!(answer_of(action), "Your password has been changed.");
    assert!(change_password(state, PasswordEvent::Changed(Ok(())), &key).is_none());
    assert!(change_password(PasswordChange::Submitted, PasswordEvent::Changed(Ok(())), &key)
        .is_none());
}

#[test]
fn a_wrong_current_password_is_sent_back() {
    let key = cookie_key();
    let wrong = AuthError::InvalidCredentials(ErrorTrace::new("hash mismatch"));
    let (state, action) =
        change_password(PasswordChange::Validating, PasswordEvent::Validated(Err(wrong)), &key)
            .unwrap();
    assert_eq!(state, PasswordChange::Finished);
    assert_eq!(answer_of(action), "The current password is incorrect.");
}

#[test]
fn a_failure_underneath_fails_the_change_of_password() {
    let key = cookie_key();
    let cause = ErrorTrace::new("pool timed out");
    let failures = vec![
        (PasswordChange::FetchingUsername, PasswordEvent::Username(Err(cause.clone()))),
        (
            PasswordChange::Validating,
            PasswordEvent::Validated(Err(AuthError::UnexpectedError(cause.clone()))),
        ),
        (PasswordChange::Changing, PasswordEvent::Changed(Err(cause.clone()))),
    ];
    for (state, event) in failures {
        let (state, action) = change_password(state, event, &key).unwrap();
        assert_eq!(state, PasswordChange::Finished);
        match action {
            PasswordAction::Fail(error) => {
                assert_eq!(error, AdminDashboardError::UnexpectedError(cause.clone()))
            }
            other => panic!("expected a failure, got {:?}", other),
        }
    }
}

fn valid_form() -> SubscriptionForm {
    SubscriptionForm { email: "serj@rodrigess.com".to_string(), name: "serj".to_string() }
}

fn base_url() -> ApplicationBaseUrl {
    ApplicationBaseUrl("http://127.0.0.1:8000".to_string())
}

const TOKEN: &str = "abcdefghijklmnopqrstuvwxy";

#[test]
fn post_subscribe_returns_200_for_valid_form_data() {
    let form = valid_form();
    let (state, action) = subscribe_start(&form);
    assert_eq!(state, Subscription::Connecting);
    assert_eq!(action, SubscribeAction::Connect);

    let mail = confirmation_email(&base_url(), TOKEN);
    let steps = vec![
        (
            Subscription::Connecting,
            Subscription::Inserting,
            SubscribeAction::InsertSubscriber {
                email: "serj@rodrigess.com".to_string(),
                name: "serj".to_string(),
            },
        ),
        (
            Subscription::Inserting,
            Subscription::StoringToken,
            SubscribeAction::StoreToken { subscription_token: TOKEN.to_string() },
        ),
        (Subscription::StoringToken, Subscription::Committing, SubscribeAction::Commit),
        (
            Subscription::Committing,
            Subscription::Sending,
            SubscribeAction::SendEmail { recipient: "serj@rodrigess.com".to_string(), mail },
        ),
        (Subscription::Sending, Subscription::Finished, SubscribeAction::Answer(200)),
    ];
    for (state, then, action) in steps {
        assert_eq!(subscribe(state, Ok(()), &form, TOKEN, &base_url()), Some((then, action)));
    }
    assert_eq!(subscribe(Subscription::Finished, Ok(()), &form, TOKEN, &base_url()), None);
    let late = Err(ErrorTrace::new("late"));
    assert_eq!(subscribe(Subscription::Finished, late, &form, TOKEN, &base_url()), None);
}

#[test]
fn subscribe_sends_a_confirmation_email_for_valid_data() {
    // The mail that is sent after the commit goes to the address of the
    // form and carries the token that was stored.
    let form = valid_form();
    let stored = match subscribe(Subscription::Inserting, Ok(()), &form, TOKEN, &base_url()) {
        Some((_, SubscribeAction::StoreToken { subscription_token })) => subscription_token,
        other => panic!("expected the token to store, got {:?}", other),
    };
    match subscribe(Subscription::Committing, Ok(()), &form, TOKEN, &base_url()) {
        Some((Subscription::Sending, SubscribeAction::SendEmail { recipient, mail })) => {
            assert_eq!(recipient, "serj@rodrigess.com");
            let link = format!(
                "http://127.0.0.1:8000/subscriptions/confirm?subscription_token={}",
                stored
            );
            assert!(mail.html_body.contains(&link));
            assert!(mail.plain_body.contains(&link));
        }
        other => panic!("expected the mail to send, got {:?}", other),
    }
}

#[test]
fn subscribe_returns_a_400_when_fields_are_present_but_empty() {
    let test_cases = vec![
        ("", "ursula_le_guin@gmail.com", " is not a valid subscriber name."),
        ("Ursula", "", " is not a valid subscriber email."),
        (
            "Ursula",
            "definitely-not-an-email",
            "definitely-not-an-email is not a valid subscriber email.",
        ),
    ];
    for (name, email, said) in test_cases {
        let form = SubscriptionForm { email: email.to_string(), name: name.to_string() };
        let (state, action) = subscribe_start(&form);
        assert_eq!(state, Subscription::Finished);
        match action {
            SubscribeAction::Fail(error) => {
                assert_eq!(error, SubscribeError::ValidationError(said.to_string()));
                assert_eq!(error.into_response().status, 400);
            }
            other => panic!("expected a failure, got {:?}", other),
        }
    }
}

#[test]
fn a_subscriber_needs_a_name_and_an_address() {
    assert_eq!(validate_subscriber("serj", "serj@rodrigess.com"), Ok(()));
    assert_eq!(validate_subscriber(" ", "a@b"), Ok(()));
    assert_eq!(
        validate_subscriber("", "not an address"),
        Err(" is not a valid subscriber name.".to_string())
    );
    for email in ["", "@", "a@", "@b", "ab", "@@", "a.b"] {
        assert_eq!(
            validate_subscriber("serj", email),
            Err(format!("{} is not a valid subscriber email.", email))
        );
        assert!(!is_subscriber_email(email));
    }
    for email in ["a@b", "serj@rodrigess.com", "a@@", "\u{e9}@\u{e9}"] {
        assert!(is_subscriber_email(email));
    }
}

#[test]
fn subscribe_fails_if_there_is_a_fatal_database_error() {
    let form = valid_form();
    let cause = ErrorTrace::new("column \"email\" does not exist");
    let failures = vec![
        (Subscription::Connecting, "Failed to acquire a Postgres connection from the pool"),
        (Subscription::Inserting, "Failed to insert new subscriber in the database."),
        (
            Subscription::StoringToken,
            "Failed to store the confirmation token for a new subscriber.",
        ),
        (
            Subscription::Committing,
            "Failed to commit SQL transaction to store a new subscriber.",
        ),
        (Subscription::Sending, "Failed to send a confirmation email."),
    ];
    for (state, message) in failures {
        let (state, action) =
            subscribe(state, Err(cause.clone()), &form, TOKEN, &base_url()).unwrap();
        assert_eq!(state, Subscription::Finished);
        match action {
            SubscribeAction::Fail(error) => {
                assert_eq!(
                    error,
                    SubscribeError::UnexpectedError(cause.clone(), message.to_string())
                );
                assert_eq!(error.into_response().status, 500);
            }
            other => panic!("expected a failure, got {:?}", other),
        }
    }
}

#[test]
fn subscribe_sends_a_confirmation_email_with_a_link() {
    let base = ApplicationBaseUrl("http://127.0.0.1:8000".to_string());
    let mail = confirmation_email(&base, "abcDEF123");
    let link = "http://127.0.0.1:8000/subscriptions/confirm?subscription_token=abcDEF123";
    assert_eq!(mail.subject, "Welcome!");
    assert_eq!(
        mail.plain_body,
        format!("Welcome to our newsletter!\n Visti {} to confirm your subscription.", link)
    );
    assert_eq!(
        mail.html_body,
        format!(
            "Welcome to our newsletter!<br/> Click <a href=\"{}\">here</a> \
             to confirm your subscription.",
            link
        )
    );
}

#[test]
fn a_subscription_token_has_25_letters_and_digits() {
    let first = generate_subscription_token();
    let second = generate_subscription_token();
    for token in [&first, &second] {
        assert_eq!(token.len(), 25);
        assert!(token.chars().all(|c| c.is_ascii_alphanumeric()));
    }
    assert_ne!(first, second);
}

#[test]
fn a_confirmation_goes_by_what_the_token_is() {
    assert_eq!(confirm(TokenLookup::Failed), Confirmation::Answer(500));
    assert_eq!(confirm(TokenLookup::Unknown), Confirmation::Answer(401));
    assert_eq!(confirm(TokenLookup::Subscriber(9)), Confirmation::Confirm(9));
    assert_eq!(confirmed(true), 200);
    assert_eq!(confirmed(false), 500);
}
