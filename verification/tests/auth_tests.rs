use user_api::auth::{invite, register, sign_in, sign_out, who_am_i, RegistrationMessage};
use user_api::error::ApiError;
use user_api::session::SessionState;
use user_api::token::{TokenRecord, TOKEN_VALIDITY_SECONDS};
use user_api::user::{User, UserMessage};

#[test]
fn hashing_twice_gives_distinct_hashes_that_both_verify() {
    let msg = |pw: &str| UserMessage { email: String::from("a@x.com"), password: String::from(pw) };
    let u1 = User::create(msg("secret"), 10).unwrap();
    let u2 = User::create(msg("secret"), 10).unwrap();
    assert_ne!(u1.password, u2.password);
    assert!(u1.verify_password(b"secret").unwrap());
    assert!(u2.verify_password(b"secret").unwrap());
    assert!(!u1.verify_password(b"wrong").unwrap());
}

#[test]
fn created_account_holds_hash_not_plaintext() {
    let msg = UserMessage { email: String::from("a@x.com"), password: String::from("p1") };
    let u = User::create(msg, 42).unwrap();
    assert_eq!(u.email, "a@x.com");
    assert_eq!(u.created_at, 42);
    assert!(u.updated_at.is_none());
    assert_ne!(u.password, "p1");
}

#[test]
fn token_round_trips_through_its_encoding() {
    let t = TokenRecord::issue(String::from("a@x.com"), 1_000);
    assert_eq!(t.id.len(), 32);
    let code = t.encoded_id();
    assert_eq!(code.len(), 64);
    let tokens = vec![t];
    let resolved = TokenRecord::resolve(&tokens, code.as_str()).unwrap();
    assert_eq!(resolved.email, "a@x.com");
    assert_eq!(resolved.issued_at, 1_000);
    assert_eq!(resolved.expires_at, 1_000 + TOKEN_VALIDITY_SECONDS);
}

#[test]
fn malformed_and_unknown_tokens_are_invalid() {
    let tokens = vec![TokenRecord::issue(String::from("a@x.com"), 0)];
    assert_eq!(TokenRecord::resolve(&tokens, "zz").unwrap_err(), ApiError::InvalidToken);
    assert_eq!(TokenRecord::resolve(&tokens, "abc").unwrap_err(), ApiError::InvalidToken);
    let unknown = "00".repeat(32);
    assert_eq!(TokenRecord::resolve(&tokens, unknown.as_str()).unwrap_err(), ApiError::InvalidToken);
}

#[test]
fn token_expiry_is_checked_at_the_instant() {
    let t = TokenRecord::issue(String::from("a@x.com"), 1_000);
    let email = String::from("a@x.com");
    assert!(t.validate_for(&email, t.expires_at - 1).is_ok());
    assert_eq!(t.validate_for(&email, t.expires_at).unwrap_err(), ApiError::TokenExpired);
    assert_eq!(t.validate_for(&email, t.expires_at + 1).unwrap_err(), ApiError::TokenExpired);
}

#[test]
fn mismatched_email_is_invalid_even_before_expiry() {
    let t = TokenRecord::issue(String::from("a@x.com"), 1_000);
    let other = String::from("b@x.com");
    assert_eq!(t.validate_for(&other, 1_001).unwrap_err(), ApiError::InvalidToken);
}

#[test]
fn registration_scenario_with_one_hour_window() {
    let now: i64 = 50_000;
    let (token, code) = invite(String::from("a@x.com"), now);
    assert_eq!(token.expires_at, now + 3_600);
    let tokens = vec![token];

    let good = RegistrationMessage {
        token: code.clone(),
        email: String::from("a@x.com"),
        password: String::from("p1"),
    };
    let user = register(&tokens, &good, now + 10).unwrap();
    assert_eq!(user.email, "a@x.com");
    assert_eq!(user.created_at, now + 10);
    assert!(user.updated_at.is_none());
    assert_ne!(user.password, "p1");
    assert!(user.verify_password(b"p1").unwrap());

    let wrong_email = RegistrationMessage {
        token: code.clone(),
        email: String::from("b@x.com"),
        password: String::from("p1"),
    };
    assert_eq!(register(&tokens, &wrong_email, now + 10).unwrap_err(), ApiError::InvalidToken);

    let late = RegistrationMessage {
        token: code,
        email: String::from("a@x.com"),
        password: String::from("p1"),
    };
    assert_eq!(register(&tokens, &late, now + 3_600).unwrap_err(), ApiError::TokenExpired);
}

#[test]
fn sign_in_binds_session_and_rejects_bad_credentials() {
    let msg = UserMessage { email: String::from("a@x.com"), password: String::from("pw") };
    let stored = User::create(msg, 0).unwrap();
    let id = stored.id;
    let table = vec![stored];
    let mut session = SessionState::new();

    let bad_pw = UserMessage { email: String::from("a@x.com"), password: String::from("nope") };
    assert_eq!(sign_in(&table, &bad_pw, &mut session).unwrap_err(), ApiError::Unauthorized);
    assert!(session.resolve().is_none());

    let bad_email = UserMessage { email: String::from("x@x.com"), password: String::from("pw") };
    assert_eq!(sign_in(&table, &bad_email, &mut session).unwrap_err(), ApiError::Unauthorized);

    let good = UserMessage { email: String::from("a@x.com"), password: String::from("pw") };
    let signed = sign_in(&table, &good, &mut session).unwrap();
    assert_eq!(signed.id, id);
    assert_eq!(session.resolve(), Some(id));

    let me = who_am_i(&table, &session).unwrap();
    assert_eq!(me.id, id);

    assert!(sign_out(&mut session).is_ok());
    assert!(session.resolve().is_none());
    assert_eq!(sign_out(&mut session).unwrap_err(), ApiError::Unauthorized);
    assert_eq!(who_am_i(&table, &session).unwrap_err(), ApiError::Unauthorized);
}

#[test]
fn crud_by_id_and_email() {
    let mk = |id: u128, email: &str| User {
        id,
        email: String::from(email),
        password: String::from("h"),
        created_at: 5,
        updated_at: None,
    };
    let mut table = vec![mk(1, "a@x.com"), mk(2, "b@x.com")];

    assert_eq!(User::find(&table, 2).unwrap().email, "b@x.com");
    assert_eq!(User::find(&table, 9).unwrap_err(), ApiError::NotFound);
    assert_eq!(User::find_by_email(&table, &String::from("a@x.com")).unwrap().id, 1);
    assert_eq!(
        User::find_by_email(&table, &String::from("z@x.com")).unwrap_err(),
        ApiError::NotFound
    );

    let msg = UserMessage { email: String::from("a2@x.com"), password: String::from("h2") };
    let updated = User::update(&mut table, 1, msg, 77).unwrap();
    assert_eq!(updated.email, "a2@x.com");
    assert_eq!(updated.created_at, 5);
    assert_eq!(updated.updated_at, Some(77));
    assert_eq!(User::find(&table, 1).unwrap().email, "a2@x.com");

    let missing = UserMessage { email: String::from("q@x.com"), password: String::from("h") };
    assert_eq!(User::update(&mut table, 9, missing, 0).unwrap_err(), ApiError::NotFound);

    assert_eq!(User::delete(&mut table, 1).unwrap(), 1);
    assert_eq!(User::delete(&mut table, 1).unwrap(), 0);
    assert_eq!(table.len(), 1);
}

#[test]
fn error_kinds_carry_their_status_codes() {
    assert_eq!(ApiError::NotFound.status_code(), 404);
    assert_eq!(ApiError::Unauthorized.status_code(), 401);
    assert_eq!(ApiError::InvalidToken.status_code(), 403);
    assert_eq!(ApiError::TokenExpired.status_code(), 403);
    assert_eq!(ApiError::ValidationFailure.status_code(), 400);
    assert_eq!(ApiError::HashingFailure.status_code(), 500);
    assert_eq!(ApiError::PersistenceFailure.status_code(), 500);
}

#[test]
fn unparseable_hash_is_a_hashing_failure_not_a_mismatch() {
    let u = User {
        id: 1,
        email: String::from("a@x.com"),
        password: String::from("not-an-encoded-hash"),
        created_at: 0,
        updated_at: None,
    };
    assert_eq!(u.verify_password(b"anything").unwrap_err(), ApiError::HashingFailure);

    let table = vec![u];
    let mut session = SessionState::new();
    let creds = UserMessage { email: String::from("a@x.com"), password: String::from("anything") };
    assert_eq!(sign_in(&table, &creds, &mut session).unwrap_err(), ApiError::HashingFailure);
    assert!(session.resolve().is_none());
}
