use zero2prod::routes::LoginError;
use zero2prod::routes::Parameters;
use zero2prod::routes::StoreTokenError;
use zero2prod::routes::SubscribeError;
use zero2prod::routes::confirmation_link;
use zero2prod::routes::error_chain_fmt;
use zero2prod::routes::generate_subscription_token;
use zero2prod::startup::ApplicationBaseUrl;
use zero2prod::utils::see_other;

#[test]
fn login_errors_report_internal_server_error() {
    let auth = LoginError::AuthError("bad password".to_string());
    let other = LoginError::UnexpectedError("pool exhausted".to_string());
    assert_eq!(auth.status_code(), 500);
    assert_eq!(other.status_code(), 500);
    assert_eq!(auth.message(), "Authentication failed");
    assert_eq!(other.message(), "Something went wrong");
}

#[test]
fn subscribe_errors_map_to_status_codes() {
    let validation = SubscribeError::ValidationError("empty name".to_string());
    let unexpected = SubscribeError::UnexpectedError("connection lost".to_string());
    assert_eq!(validation.status_code(), 400);
    assert_eq!(unexpected.status_code(), 500);
    assert_eq!(validation.message(), "empty name");
    assert_eq!(unexpected.message(), "connection lost");
}

#[test]
fn store_token_errors_keep_their_cause() {
    let err = StoreTokenError("unique constraint violated".to_string());
    assert_eq!(
        err.message(),
        "A database error was encountered while trying to store a subscription token."
    );
    assert_eq!(err.source(), "unique constraint violated");
}

#[test]
fn error_chains_render_outermost_first() {
    let causes = vec![
        "Failed to insert new subscriber in the database.".to_string(),
        "connection reset".to_string(),
    ];
    let rendered = error_chain_fmt("Something went wrong", &causes);
    assert_eq!(
        rendered,
        "Something went wrong\n\n\
         Caused by: \n\tFailed to insert new subscriber in the database.\n\
         Caused by: \n\tconnection reset\n"
    );
}

#[test]
fn an_error_without_causes_renders_alone() {
    let rendered = error_chain_fmt("Authentication failed", &Vec::new());
    assert_eq!(rendered, "Authentication failed\n\n");
}

#[test]
fn subscription_tokens_are_25_alphanumeric_characters() {
    let token = generate_subscription_token();
    assert_eq!(token.chars().count(), 25);
    assert!(token.chars().all(|c| c.is_ascii_alphanumeric()));
}

#[test]
fn confirmation_links_carry_base_url_and_token() {
    let link = confirmation_link("https://example.com", "tok123");
    assert_eq!(
        link,
        "https://example.com/subscriptions/confirm?subscription_token=tok123"
    );
}

#[test]
fn see_other_builds_a_redirect() {
    let r = see_other("/login");
    assert_eq!(r.status_code, 303);
    assert_eq!(r.headers.len(), 1);
    assert_eq!(r.headers[0].name, "location");
    assert_eq!(r.headers[0].value, b"/login".to_vec());
    assert!(r.body.is_empty());
}

#[test]
fn wrapper_types_expose_their_payload() {
    let base = ApplicationBaseUrl("https://example.com".to_string());
    assert_eq!(base.0, "https://example.com");
    let params = Parameters {
        subscription_token: "tok123".to_string(),
    };
    assert_eq!(params.subscription_token, "tok123");
}
