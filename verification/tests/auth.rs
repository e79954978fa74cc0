use music_server::auth::bearer_token;
use music_server::auth::validate_register;
use music_server::auth::AuthError;
use music_server::auth::Claims;
use music_server::auth::TOKEN_TTL_SECONDS;
use music_server::models::AuthBody;
use music_server::models::RegisterPayload;

#[test]
fn auth_body_wraps_token_with_bearer_scheme() {
    let body = AuthBody::new(String::from("abc.def.ghi"));
    assert_eq!(body.access_token, "abc.def.ghi");
    assert_eq!(body.token_type, "Bearer");
}

#[test]
fn claims_expire_two_hours_after_issue() {
    let claims = Claims::new(String::from("alice"), 1_700_000_000);
    assert_eq!(claims.sub, "alice");
    assert_eq!(claims.iat, 1_700_000_000);
    assert_eq!(claims.exp, 1_700_000_000 + TOKEN_TTL_SECONDS);
    assert_eq!(claims.exp - claims.iat, 7200);
}

#[test]
fn register_payload_length_rules() {
    let ok = RegisterPayload { username: String::from("bob"), password: String::from("secret") };
    assert!(ok.validate());
    let short_name =
        RegisterPayload { username: String::from("bo"), password: String::from("secret") };
    assert!(!short_name.validate());
    let short_password =
        RegisterPayload { username: String::from("bob"), password: String::from("12345") };
    assert!(!short_password.validate());
}

#[test]
fn register_payload_counts_characters_not_bytes() {
    // three characters, more than three bytes
    let payload =
        RegisterPayload { username: String::from("éé€"), password: String::from("pää§§ö") };
    assert!(payload.validate());
    let two_chars =
        RegisterPayload { username: String::from("éé"), password: String::from("secret") };
    assert!(!two_chars.validate());
}

#[test]
fn validate_register_rejects_only_rule_breakers() {
    let ok = RegisterPayload { username: String::from("carol"), password: String::from("hunter2") };
    assert!(validate_register(&ok).is_ok());
    let bad = RegisterPayload { username: String::from("c"), password: String::from("hunter2") };
    match validate_register(&bad) {
        Err(AuthError::MissingCredentials) => {}
        _ => panic!("a short username must be rejected as missing credentials"),
    }
}

#[test]
fn auth_errors_carry_their_status_and_message() {
    assert_eq!(AuthError::WrongCredentials.status_code(), 401);
    assert_eq!(AuthError::MissingCredentials.status_code(), 400);
    assert_eq!(AuthError::TokenCreation.status_code(), 500);
    assert_eq!(AuthError::UserAlreadyExists.status_code(), 400);
    assert_eq!(AuthError::UserTimeOut.status_code(), 504);
    assert_eq!(AuthError::WrongCredentials.message(), "Wrong credentials");
    assert_eq!(AuthError::MissingCredentials.message(), "Missing credentials");
    assert_eq!(AuthError::TokenCreation.message(), "Token creation error");
    assert_eq!(AuthError::UserAlreadyExists.message(), "User already exists");
    assert_eq!(AuthError::UserTimeOut.message(), "Time out");
}

#[test]
fn bearer_token_strips_the_scheme() {
    assert_eq!(bearer_token("Bearer abc123"), Some("abc123"));
    assert_eq!(bearer_token("Bearer "), Some(""));
    assert_eq!(bearer_token("Bearer é€"), Some("é€"));
}

#[test]
fn bearer_token_rejects_other_schemes() {
    assert_eq!(bearer_token("Token abc"), None);
    assert_eq!(bearer_token("Bearer"), None);
    assert_eq!(bearer_token(""), None);
    assert_eq!(bearer_token("bearer abc"), None);
}
