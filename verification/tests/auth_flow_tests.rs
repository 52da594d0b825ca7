use session_auth::auth::auth_middleware;
use session_auth::auth::auth_middleware_at;
use session_auth::auth::hash_refresh_token;
use session_auth::auth::issue_access_token;
use session_auth::auth::issue_tokens;
use session_auth::auth::issue_tokens_at;
use session_auth::auth::login;
use session_auth::auth::login_at;
use session_auth::auth::logout;
use session_auth::auth::refresh;
use session_auth::auth::refresh_at;
use session_auth::auth::register;
use session_auth::auth::store_account;
use session_auth::auth::verify_credentials;
use session_auth::auth::RefreshPayload;
use session_auth::common::ContactDto;
use session_auth::common::Credentials;
use session_auth::config::AppConfig;
use session_auth::config::DatabaseConfig;
use session_auth::config::JwtConfig;
use session_auth::config::RateLimitConfig;
use session_auth::config::WebConfig;
use session_auth::db::Database;
use session_auth::error::AppError;
use session_auth::extractors::AuthUser;
use session_auth::web_server::AppState;

const TEST_JWT_SECRET: &str = "test_secret";

fn spawn_app() -> AppState {
    AppState {
        db: Database::new(),
        app_config: AppConfig {
            web: WebConfig {
                addr: "127.0.0.1".to_string(),
                port: 0,
                cors_origin: "http://localhost:5173".to_string(),
            },
            database: DatabaseConfig { url: "sqlite::memory:".to_string() },
            jwt: JwtConfig {
                secret: TEST_JWT_SECRET.to_string(),
                access_token_expires_minutes: 15,
                refresh_token_expires_days: 7,
            },
            ratelimit: RateLimitConfig { per_second: 1000, burst_size: 500 },
        },
    }
}

fn credentials(email: &str, password: &str) -> Credentials {
    Credentials { email: email.to_string(), password: password.to_string() }
}

fn payload(token: &str) -> RefreshPayload {
    RefreshPayload { refresh_token: token.to_string() }
}

/// Stores an account whose password hash is cheap to check.
fn add_account(state: &mut AppState, email: &str, password: &str) -> i64 {
    let hash = bcrypt::hash(password, 4).unwrap();
    state.db.insert_user(email.to_string(), hash).unwrap()
}

fn status_of<T>(reply: &Result<T, AppError>, ok: u16) -> u16 {
    match reply {
        Ok(_) => ok,
        Err(error) => error.status_code(),
    }
}

fn now() -> i64 {
    std::time::SystemTime::now().duration_since(std::time::UNIX_EPOCH).unwrap().as_secs() as i64
}

#[test]
fn test_register_login_logout_flow() {
    let mut state = spawn_app();

    // Register a new user
    let reply = register(&mut state, credentials("test_user@example.com", "password123"));
    assert_eq!(reply.unwrap(), 201, "Should succeed in registering a new user");

    // Registering the same user again should fail
    let reply = register(&mut state, credentials("test_user@example.com", "password123"));
    assert_eq!(status_of(&reply, 201), 409, "Should fail with conflict when registering existing user");
    assert!(matches!(reply, Err(AppError::Conflict(_))));

    // Log in with correct credentials
    let reply = login(&mut state, credentials("test_user@example.com", "password123"));
    assert_eq!(status_of(&reply, 200), 200, "Should succeed with correct credentials");
    let login_response = reply.unwrap();
    assert!(!login_response.access_token.is_empty());
    assert!(!login_response.refresh_token.is_empty());
    let access_token = login_response.access_token;

    // Log in with incorrect password
    let reply = login(&mut state, credentials("test_user@example.com", "wrongpassword"));
    assert_eq!(status_of(&reply, 200), 401, "Should fail with incorrect password");

    // Logout using the access token
    let user = auth_middleware(&state, Some(&access_token)).unwrap();
    let reply = logout(&mut state, user);
    assert_eq!(reply.unwrap(), 204, "Should successfully logout");

    // Verify logout invalidates refresh token
    let reply = refresh(&mut state, payload(&login_response.refresh_token));
    assert_eq!(status_of(&reply, 200), 401, "Refresh token should be invalid after logout");
}

#[test]
fn test_token_refresh() {
    let mut state = spawn_app();
    add_account(&mut state, "test@example.com", "password123");
    login(&mut state, credentials("test@example.com", "password123")).unwrap();

    // Login again to get the full login response with the refresh token
    let first_tokens = login(&mut state, credentials("test@example.com", "password123")).unwrap();

    // Use the refresh token to get a new set of tokens
    let reply = refresh(&mut state, payload(&first_tokens.refresh_token));
    assert_eq!(status_of(&reply, 200), 200);
    let new_tokens = reply.unwrap();

    assert_ne!(
        first_tokens.access_token, new_tokens.access_token,
        "Access token should be different after refresh"
    );
    assert_ne!(
        first_tokens.refresh_token, new_tokens.refresh_token,
        "Refresh token should be rotated and different after refresh"
    );

    // Try to use the OLD refresh token again, which should fail
    let reply = refresh(&mut state, payload(&first_tokens.refresh_token));
    assert_eq!(status_of(&reply, 200), 401, "Old refresh token should be invalidated after use");

    // Use an invalid/random refresh token
    let reply = refresh(&mut state, payload("invalid-token-string"));
    assert_eq!(status_of(&reply, 200), 401);

    // The rotated token is still good, once.
    assert!(refresh(&mut state, payload(&new_tokens.refresh_token)).is_ok());
    assert!(refresh(&mut state, payload(&new_tokens.refresh_token)).is_err());
}

#[test]
fn test_protected_routes_require_auth() {
    let state = spawn_app();
    let routes = vec![
        ("POST", "/api/v1/logout"),
        ("GET", "/api/v1/contacts"),
        ("POST", "/api/v1/contacts"),
        ("GET", "/api/v1/contacts/1"),
        ("PUT", "/api/v1/contacts/1"),
        ("DELETE", "/api/v1/contacts/1"),
    ];
    for (method, url) in routes {
        let reply = auth_middleware(&state, None);
        assert_eq!(
            status_of(&reply, 200),
            401,
            "Endpoint {method} {url} should be protected and return 401 without auth"
        );
        assert!(matches!(reply, Err(AppError::Unauthorized)));
    }
}

#[test]
fn test_invalid_and_expired_tokens() {
    let mut state = spawn_app();

    // A completely invalid/malformed token
    let reply = auth_middleware(&state, Some("this-is-not-a-valid-jwt"));
    assert_eq!(status_of(&reply, 200), 401, "Should reject a malformed JWT");

    // A valid but expired token
    let id = add_account(&mut state, "expired_token_user@example.com", "password123");
    assert_eq!(id, 1);
    let expiration = now() - 30;
    let mut claims = serde_json::Map::new();
    claims.insert("sub".to_string(), serde_json::Value::from("1"));
    claims.insert("exp".to_string(), serde_json::Value::from(expiration as usize));
    claims.insert("nonce".to_string(), serde_json::Value::from("test-nonce"));
    let secret = jsonwebtoken::EncodingKey::from_secret(TEST_JWT_SECRET.as_ref());
    let expired_token = jsonwebtoken::encode(&jsonwebtoken::Header::default(), &claims, &secret).unwrap();

    let reply = auth_middleware(&state, Some(&expired_token));
    assert_eq!(status_of(&reply, 200), 401, "Should reject an expired JWT");

    // The same claims with an expiry ahead are accepted.
    claims.insert("exp".to_string(), serde_json::Value::from((now() + 30) as usize));
    let live_token = jsonwebtoken::encode(&jsonwebtoken::Header::default(), &claims, &secret).unwrap();
    let user = auth_middleware(&state, Some(&live_token)).unwrap();
    assert_eq!(user.id, 1);
    assert_eq!(user.email, "expired_token_user@example.com");
}

#[test]
fn test_validation_errors() {
    let mut state = spawn_app();

    // Register with invalid email
    let reply = register(&mut state, credentials("not-an-email", "longenoughpassword"));
    assert_eq!(status_of(&reply, 201), 422, "Should fail with invalid email format");

    // Register with short password
    let reply = register(&mut state, credentials("another@user.com", "short"));
    assert_eq!(status_of(&reply, 201), 422, "Should fail with short password");

    // Create contact with empty name
    let invalid_contact = ContactDto {
        id: None,
        name: "".to_string(),
        email: "some.contact@test.com".to_string(),
        age: 25,
        subscribed: false,
        contact_type: "Work".to_string(),
    };
    let reply = invalid_contact.validate().map_err(AppError::ValidationError);
    assert_eq!(status_of(&reply, 201), 422, "Should fail with empty contact name");

    // Nothing was stored along the way.
    assert!(state.db.find_user_by_email("another@user.com").is_none());
    assert!(state.db.find_user_by_email("not-an-email").is_none());
}

#[test]
fn registration_stores_a_salted_hash_not_the_password() {
    let mut state = spawn_app();
    assert_eq!(register(&mut state, credentials("a@x.com", "password123")).unwrap(), 201);
    let stored = state.db.find_user_by_email("a@x.com").unwrap();
    assert_eq!(stored.id, 1);
    assert_ne!(stored.password_hash, "password123");
    assert_eq!(stored.password_hash.len(), 60);
    assert!(stored.password_hash.starts_with("$2b$12$"));
    assert!(bcrypt::verify("password123", &stored.password_hash).unwrap());
    assert!(!bcrypt::verify("password124", &stored.password_hash).unwrap());
}

#[test]
fn second_registration_is_a_conflict_and_adds_nothing() {
    let mut state = spawn_app();
    add_account(&mut state, "a@x.com", "password123");
    let before = state.db.find_user_by_email("a@x.com").unwrap();

    match register(&mut state, credentials("a@x.com", "anotherpassword")) {
        Err(AppError::Conflict(text)) => assert_eq!(text, "User with this email already exists"),
        other => panic!("{other:?}"),
    }
    let after = state.db.find_user_by_email("a@x.com").unwrap();
    assert_eq!(after.id, before.id);
    assert_eq!(after.password_hash, before.password_hash);
    assert!(state.db.find_user_by_id(2).is_none());
    // The next account still gets the next id.
    assert_eq!(add_account(&mut state, "b@x.com", "password123"), 2);
    // Validation comes before the look at the table.
    assert!(matches!(register(&mut state, credentials("a@x.com", "short")), Err(AppError::ValidationError(_))));
}

#[test]
fn storing_an_account_after_a_failed_hashing_is_an_internal_error() {
    let mut state = spawn_app();
    match store_account(&mut state, "a@x.com".to_string(), Err(bcrypt::BcryptError::InvalidSaltLen(3))) {
        Err(AppError::InternalServerError(text)) => assert_eq!(text, "Password hashing error"),
        other => panic!("{other:?}"),
    }
    assert!(state.db.find_user_by_email("a@x.com").is_none());

    assert_eq!(store_account(&mut state, "a@x.com".to_string(), Ok("hash".to_string())).unwrap(), 201);
    assert_eq!(state.db.find_user_by_email("a@x.com").unwrap().password_hash, "hash");

    match store_account(&mut state, "a@x.com".to_string(), Ok("other".to_string())) {
        Err(AppError::InternalServerError(text)) => assert_eq!(text, "Failed to create user"),
        other => panic!("{other:?}"),
    }
    assert_eq!(state.db.find_user_by_email("a@x.com").unwrap().password_hash, "hash");
}

#[test]
fn unknown_email_and_wrong_password_get_the_same_answer() {
    let mut state = spawn_app();
    add_account(&mut state, "a@x.com", "password123");
    let unknown = login_at(&mut state, credentials("nobody@x.com", "password123"), 1000, "n".repeat(16), &[1u8; 32]);
    let wrong = login_at(&mut state, credentials("a@x.com", "wrongpassword"), 1000, "n".repeat(16), &[1u8; 32]);
    assert!(matches!(unknown, Err(AppError::Unauthorized)));
    assert!(matches!(wrong, Err(AppError::Unauthorized)));
    let unknown = unknown.unwrap_err().into_response();
    let wrong = wrong.unwrap_err().into_response();
    assert_eq!(unknown.status, wrong.status);
    assert_eq!(unknown.error, wrong.error);
    // Neither left a session behind.
    assert!(state.db.find_session_by_hash(&hash_refresh_token("AQEBAQEBAQEBAQEBAQEBAQEBAQEBAQEBAQEBAQEBAQE")).is_none());

    assert!(verify_credentials(&state.db, "a@x.com", "password123").is_ok());
    assert!(matches!(verify_credentials(&state.db, "a@x.com", "Password123"), Err(AppError::Unauthorized)));
    assert!(matches!(verify_credentials(&state.db, "A@x.com", "password123"), Err(AppError::Unauthorized)));
}

#[test]
fn login_with_invalid_credentials_is_a_validation_error() {
    let mut state = spawn_app();
    add_account(&mut state, "a@x.com", "short");
    // The stored password would match, but the request breaks the length rule.
    let reply = login_at(&mut state, credentials("a@x.com", "short"), 1000, "n".repeat(16), &[1u8; 32]);
    assert!(matches!(reply, Err(AppError::ValidationError(_))));
}

#[test]
fn login_issues_a_token_for_the_account_with_the_configured_lifetime() {
    let mut state = spawn_app();
    add_account(&mut state, "first@x.com", "password123");
    let id = add_account(&mut state, "a@x.com", "password123");
    assert_eq!(id, 2);
    let tokens =
        login_at(&mut state, credentials("a@x.com", "password123"), 1000, "abcdefghijklmnop".to_string(), &[1u8; 32])
            .unwrap();

    assert_eq!(
        tokens.access_token,
        issue_access_token(2, &state.app_config.jwt, 1000, "abcdefghijklmnop".to_string()).unwrap()
    );
    assert_eq!(tokens.refresh_token, "AQEBAQEBAQEBAQEBAQEBAQEBAQEBAQEBAQEBAQEBAQE");

    // Subject: the account; expiry: issue time plus fifteen minutes, to the second.
    let user = auth_middleware_at(&state, Some(&tokens.access_token), 1000 + 15 * 60 - 1).unwrap();
    assert_eq!(user.id, 2);
    assert_eq!(user.email, "a@x.com");
    assert!(matches!(
        auth_middleware_at(&state, Some(&tokens.access_token), 1000 + 15 * 60),
        Err(AppError::Unauthorized)
    ));

    // The session: the hash of the refresh token, seven days.
    let session = state.db.find_session_by_hash(&hash_refresh_token(&tokens.refresh_token)).unwrap();
    assert_eq!(session.user_id, 2);
    assert_eq!(session.expires_at, 1000 + 7 * 86400);
    // The raw token is not what is stored.
    assert!(state.db.find_session_by_hash(&tokens.refresh_token).is_none());
}

#[test]
fn second_login_leaves_one_session_and_kills_the_first_refresh_token() {
    let mut state = spawn_app();
    add_account(&mut state, "a@x.com", "password123");
    let first =
        login_at(&mut state, credentials("a@x.com", "password123"), 1000, "a".repeat(16), &[1u8; 32]).unwrap();
    let second =
        login_at(&mut state, credentials("a@x.com", "password123"), 1001, "b".repeat(16), &[2u8; 32]).unwrap();
    assert_ne!(first.refresh_token, second.refresh_token);

    assert!(state.db.find_session_by_hash(&hash_refresh_token(&first.refresh_token)).is_none());
    let live = state.db.find_session_by_hash(&hash_refresh_token(&second.refresh_token)).unwrap();
    assert_eq!(live.user_id, 1);
    assert_eq!(live.expires_at, 1001 + 7 * 86400);

    let reply = refresh_at(&mut state, payload(&first.refresh_token), 1002, "c".repeat(16), &[3u8; 32]);
    assert!(matches!(reply, Err(AppError::Unauthorized)));
    // The refusal did not touch the live session.
    assert!(refresh_at(&mut state, payload(&second.refresh_token), 1003, "d".repeat(16), &[4u8; 32]).is_ok());
}

#[test]
fn refresh_succeeds_once_for_each_token() {
    let mut state = spawn_app();
    add_account(&mut state, "a@x.com", "password123");
    let first =
        login_at(&mut state, credentials("a@x.com", "password123"), 1000, "a".repeat(16), &[1u8; 32]).unwrap();

    let second = refresh_at(&mut state, payload(&first.refresh_token), 2000, "b".repeat(16), &[2u8; 32]).unwrap();
    assert_eq!(second.refresh_token, "AgICAgICAgICAgICAgICAgICAgICAgICAgICAgICAgI");
    assert_eq!(
        second.access_token,
        issue_access_token(1, &state.app_config.jwt, 2000, "b".repeat(16)).unwrap()
    );
    let session = state.db.find_session_by_hash(&hash_refresh_token(&second.refresh_token)).unwrap();
    assert_eq!((session.user_id, session.expires_at), (1, 2000 + 7 * 86400));

    for later in [2000, 2001, 0, i64::MAX] {
        let again = refresh_at(&mut state, payload(&first.refresh_token), later, "c".repeat(16), &[3u8; 32]);
        assert!(matches!(again, Err(AppError::Unauthorized)), "at {later}");
    }
    // The refused attempts did not disturb the rotated session.
    let third = refresh_at(&mut state, payload(&second.refresh_token), 3000, "d".repeat(16), &[4u8; 32]).unwrap();
    assert_ne!(third.refresh_token, second.refresh_token);
}

#[test]
fn expired_refresh_token_is_refused_and_its_session_deleted() {
    let mut state = spawn_app();
    add_account(&mut state, "a@x.com", "password123");
    let tokens =
        login_at(&mut state, credentials("a@x.com", "password123"), 1000, "a".repeat(16), &[1u8; 32]).unwrap();
    let expiry = 1000 + 7 * 86400;
    let hash = hash_refresh_token(&tokens.refresh_token);

    let reply = refresh_at(&mut state, payload(&tokens.refresh_token), expiry + 1, "b".repeat(16), &[2u8; 32]);
    assert!(matches!(reply, Err(AppError::Unauthorized)));
    assert!(state.db.find_session_by_hash(&hash).is_none());

    // A repetition is refused too, even at a time before the expiry.
    let reply = refresh_at(&mut state, payload(&tokens.refresh_token), expiry + 1, "b".repeat(16), &[2u8; 32]);
    assert!(matches!(reply, Err(AppError::Unauthorized)));
    let reply = refresh_at(&mut state, payload(&tokens.refresh_token), 1000, "b".repeat(16), &[2u8; 32]);
    assert!(matches!(reply, Err(AppError::Unauthorized)));
}

#[test]
fn refresh_at_the_second_of_expiry_is_still_accepted() {
    let mut state = spawn_app();
    add_account(&mut state, "a@x.com", "password123");
    let tokens =
        login_at(&mut state, credentials("a@x.com", "password123"), 1000, "a".repeat(16), &[1u8; 32]).unwrap();
    let expiry = 1000 + 7 * 86400;
    assert!(refresh_at(&mut state, payload(&tokens.refresh_token), expiry, "b".repeat(16), &[2u8; 32]).is_ok());
}

#[test]
fn logout_revokes_the_refresh_token_and_is_idempotent() {
    let mut state = spawn_app();
    add_account(&mut state, "a@x.com", "password123");
    add_account(&mut state, "b@x.com", "password123");
    let a = login_at(&mut state, credentials("a@x.com", "password123"), 1000, "a".repeat(16), &[1u8; 32]).unwrap();
    let b = login_at(&mut state, credentials("b@x.com", "password123"), 1000, "b".repeat(16), &[2u8; 32]).unwrap();

    let user = AuthUser { id: 1, email: "a@x.com".to_string() };
    assert_eq!(logout(&mut state, user.clone()).unwrap(), 204);
    let reply = refresh_at(&mut state, payload(&a.refresh_token), 1001, "c".repeat(16), &[3u8; 32]);
    assert!(matches!(reply, Err(AppError::Unauthorized)));

    // Without a session there is nothing to delete, and that is no error.
    assert_eq!(logout(&mut state, user).unwrap(), 204);
    assert_eq!(logout(&mut state, AuthUser { id: 77, email: "ghost@x.com".to_string() }).unwrap(), 204);

    // The other account's session is untouched.
    assert!(refresh_at(&mut state, payload(&b.refresh_token), 1001, "d".repeat(16), &[4u8; 32]).is_ok());

    // The access token outlives the logout: it is stateless.
    assert_eq!(auth_middleware_at(&state, Some(&a.access_token), 1001).unwrap().id, 1);
}

#[test]
fn end_to_end_register_login_refresh_replay() {
    let mut state = spawn_app();
    assert_eq!(register(&mut state, credentials("a@x.com", "password123")).unwrap(), 201);

    let old = login(&mut state, credentials("a@x.com", "password123")).unwrap();
    assert!(!old.access_token.is_empty());
    assert!(!old.refresh_token.is_empty());
    assert_ne!(old.access_token, old.refresh_token);

    let new = refresh(&mut state, payload(&old.refresh_token)).unwrap();
    assert_ne!(new.access_token, old.access_token);
    assert_ne!(new.refresh_token, old.refresh_token);

    let replay = refresh(&mut state, payload(&old.refresh_token));
    assert_eq!(status_of(&replay, 200), 401);
    assert!(matches!(replay, Err(AppError::Unauthorized)));
}

#[test]
fn tokens_from_the_random_source_have_the_documented_shape() {
    let mut state = spawn_app();
    add_account(&mut state, "a@x.com", "password123");
    let before = now();
    let tokens = login(&mut state, credentials("a@x.com", "password123")).unwrap();
    let after = now();

    // Thirty-two random bytes in URL-safe text without padding.
    assert_eq!(tokens.refresh_token.len(), 43);
    assert!(tokens.refresh_token.chars().all(|c| c.is_ascii_alphanumeric() || c == '-' || c == '_'));

    let mut validation = jsonwebtoken::Validation::default();
    validation.validate_exp = false;
    let claims = jsonwebtoken::decode::<serde_json::Value>(
        &tokens.access_token,
        &jsonwebtoken::DecodingKey::from_secret(TEST_JWT_SECRET.as_bytes()),
        &validation,
    )
    .unwrap()
    .claims;
    let nonce = claims.get("nonce").unwrap().as_str().unwrap();
    assert_eq!(nonce.len(), 16);
    assert!(nonce.chars().all(|c| c.is_ascii_alphanumeric()));
    assert_eq!(claims.get("sub").unwrap().as_str(), Some("1"));
    let exp = claims.get("exp").unwrap().as_i64().unwrap();
    assert!(before + 15 * 60 <= exp && exp <= after + 15 * 60);

    let session = state.db.find_session_by_hash(&hash_refresh_token(&tokens.refresh_token)).unwrap();
    assert!(before + 7 * 86400 <= session.expires_at && session.expires_at <= after + 7 * 86400);

    // Two logins in the same second still differ in both tokens.
    let again = login(&mut state, credentials("a@x.com", "password123")).unwrap();
    assert_ne!(again.access_token, tokens.access_token);
    assert_ne!(again.refresh_token, tokens.refresh_token);
}

#[test]
fn issuing_tokens_directly() {
    let mut state = spawn_app();
    let jwt = JwtConfig { secret: "k".to_string(), access_token_expires_minutes: 1, refresh_token_expires_days: 1 };
    let first = issue_tokens_at(5, &mut state.db, &jwt, None, 100, "n".repeat(16), &[9u8; 32]).unwrap();
    let hash = hash_refresh_token(&first.refresh_token);
    assert_eq!(state.db.find_session_by_hash(&hash).unwrap().expires_at, 100 + 86400);

    let second = issue_tokens_at(5, &mut state.db, &jwt, Some(&hash), 200, "m".repeat(16), &[8u8; 32]).unwrap();
    assert!(state.db.find_session_by_hash(&hash).is_none());
    let session = state.db.find_session_by_hash(&hash_refresh_token(&second.refresh_token)).unwrap();
    assert_eq!((session.user_id, session.expires_at), (5, 200 + 86400));

    let third = issue_tokens(6, &mut state.db, &jwt, None).unwrap();
    assert_eq!(state.db.find_session_by_hash(&hash_refresh_token(&third.refresh_token)).unwrap().user_id, 6);
    assert!(state.db.find_session_by_hash(&hash_refresh_token(&second.refresh_token)).is_some());
}

#[test]
fn failed_issue_leaves_the_session_in_place() {
    let mut state = spawn_app();
    add_account(&mut state, "a@x.com", "password123");
    let tokens =
        login_at(&mut state, credentials("a@x.com", "password123"), 1000, "a".repeat(16), &[1u8; 32]).unwrap();
    // With a lifetime so long that the new expiry is no timestamp, rotation fails as a whole.
    state.app_config.jwt.refresh_token_expires_days = i64::MAX;
    let reply = refresh_at(&mut state, payload(&tokens.refresh_token), 1001, "b".repeat(16), &[2u8; 32]);
    assert!(matches!(reply, Err(AppError::InternalServerError(_))));
    assert_eq!(status_of(&reply, 200), 500);
    assert!(state.db.find_session_by_hash(&hash_refresh_token(&tokens.refresh_token)).is_some());
    state.app_config.jwt.refresh_token_expires_days = 7;
    assert!(refresh_at(&mut state, payload(&tokens.refresh_token), 1001, "b".repeat(16), &[2u8; 32]).is_ok());
}

#[test]
fn token_of_a_missing_account_is_unauthorized() {
    let mut state = spawn_app();
    add_account(&mut state, "a@x.com", "password123");
    let token = issue_access_token(99, &state.app_config.jwt, 1000, "n".repeat(16)).unwrap();
    assert!(matches!(auth_middleware_at(&state, Some(&token), 1000), Err(AppError::Unauthorized)));
    let token = issue_access_token(1, &state.app_config.jwt, 1000, "n".repeat(16)).unwrap();
    assert_eq!(auth_middleware_at(&state, Some(&token), 1000).unwrap().email, "a@x.com");
}

#[test]
fn token_under_another_configuration_is_unauthorized() {
    let mut state = spawn_app();
    add_account(&mut state, "a@x.com", "password123");
    let mut other = spawn_app();
    other.app_config.jwt.secret = "production_secret".to_string();
    add_account(&mut other, "a@x.com", "password123");

    let tokens =
        login_at(&mut state, credentials("a@x.com", "password123"), 1000, "a".repeat(16), &[1u8; 32]).unwrap();
    assert!(auth_middleware_at(&state, Some(&tokens.access_token), 1000).is_ok());
    assert!(matches!(auth_middleware_at(&other, Some(&tokens.access_token), 1000), Err(AppError::Unauthorized)));
    // Nor does the other service know the refresh token.
    let reply = refresh_at(&mut other, payload(&tokens.refresh_token), 1000, "b".repeat(16), &[2u8; 32]);
    assert!(matches!(reply, Err(AppError::Unauthorized)));
}
