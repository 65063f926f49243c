use homeserver_auth::access_token::{validate, AccessToken, TokenStore};
use homeserver_auth::clock::Instant;
use homeserver_auth::config::Config;
use homeserver_auth::credentials::UserStore;
use homeserver_auth::error::{AuthError, Status};
use homeserver_auth::login::{Login, LoginRequest, LoginResponse, LoginType};
use homeserver_auth::registration::{Register, RegistrationRequest, RegistrationResponse};

/// A server under test: its settings and its two stores.
struct Test {
    config: Config,
    users: UserStore,
    tokens: TokenStore,
}

impl Test {
    fn new() -> Test {
        Test {
            config: Config {
                domain: "ruma.test".to_string(),
                macaroon_secret_key: b"YymznQHmKdN9B4v8SwCT8RLV".to_vec(),
            },
            users: UserStore::new(),
            tokens: TokenStore::new(),
        }
    }

    fn register_user(&mut self, body: &str) -> Result<RegistrationResponse, AuthError> {
        let json: serde_json::Value = serde_json::from_str(body).unwrap();
        let request = RegistrationRequest {
            bind_email: json.get("bind_email").and_then(|v| v.as_bool()),
            password: json.get("password").unwrap().as_str().unwrap().to_string(),
            username: json.get("username").and_then(|v| v.as_str()).map(|s| s.to_string()),
        };
        Register.handle(&request, &self.config, &mut self.users)
    }

    fn post(&mut self, path: &str, body: &str) -> Result<LoginResponse, AuthError> {
        assert_eq!(path, "/_matrix/client/r0/login");
        let json: serde_json::Value = serde_json::from_str(body).unwrap();
        let request = LoginRequest::new(
            json.get("type").unwrap().as_str().unwrap(),
            json.get("user").unwrap().as_str().unwrap(),
            json.get("password").unwrap().as_str().unwrap(),
        )?;
        Login.handle(&request, &self.config, &self.users, &mut self.tokens)
    }
}

fn status(result: &Result<LoginResponse, AuthError>) -> Option<Status> {
    match result {
        Ok(_) => None,
        Err(error) => Some(error.status()),
    }
}

#[test]
fn valid_credentials() {
    let mut test = Test::new();

    assert!(test
        .register_user(r#"{"username": "carl", "password": "secret"}"#)
        .is_ok());

    let response = test
        .post(
            "/_matrix/client/r0/login",
            r#"{"type": "m.login.password", "user": "carl", "password": "secret"}"#,
        )
        .unwrap();

    assert!(!response.access_token.is_empty());
    assert_eq!(response.home_server, "ruma.test");
    assert_eq!(response.user_id.as_str(), "@carl:ruma.test");
}

#[test]
fn invalid_credentials() {
    let mut test = Test::new();

    let response = test.register_user(r#"{"username": "carl", "password": "secret"}"#);
    assert!(response.is_ok());

    let response = test.post(
        "/_matrix/client/r0/login",
        r#"{"type": "m.login.password", "user": "carl", "password": "another_secret"}"#,
    );

    assert_eq!(status(&response), Some(Status::Forbidden));
}

#[test]
fn invalid_login_type() {
    let mut test = Test::new();

    let response = test.register_user(r#"{"username": "carl", "password": "secret"}"#);
    assert!(response.is_ok());

    let response = test.post(
        "/_matrix/client/r0/login",
        r#"{"type": "m.login.email", "user": "carl", "password": "secret"}"#,
    );

    assert_eq!(status(&response), Some(Status::UnprocessableEntity));
}

#[test]
fn login_without_register() {
    let mut test = Test::new();

    let response = test.post(
        "/_matrix/client/r0/login",
        r#"{"type": "m.login.password", "user": "carl", "password": "secret"}"#,
    );

    assert_eq!(status(&response), Some(Status::Forbidden));
}

#[test]
fn login_errors_are_exact() {
    let mut test = Test::new();
    test.register_user(r#"{"username": "carl", "password": "secret"}"#).unwrap();

    let wrong = test.post(
        "/_matrix/client/r0/login",
        r#"{"type": "m.login.password", "user": "carl", "password": "wrong"}"#,
    );
    assert_eq!(wrong.unwrap_err(), AuthError::InvalidCredentials);

    let unknown = test.post(
        "/_matrix/client/r0/login",
        r#"{"type": "m.login.password", "user": "dave", "password": "secret"}"#,
    );
    assert_eq!(unknown.unwrap_err(), AuthError::UnknownIdentity);

    let foreign = test.post(
        "/_matrix/client/r0/login",
        r#"{"type": "m.login.password", "user": "@carl:other.org", "password": "secret"}"#,
    );
    assert_eq!(foreign.unwrap_err(), AuthError::ForeignDomain);

    let invalid = test.post(
        "/_matrix/client/r0/login",
        r#"{"type": "m.login.password", "user": "car l", "password": "secret"}"#,
    );
    assert_eq!(invalid.unwrap_err(), AuthError::InvalidIdentifier);

    let unsupported = test.post(
        "/_matrix/client/r0/login",
        r#"{"type": "m.login.token", "user": "carl", "password": "secret"}"#,
    );
    assert_eq!(unsupported.unwrap_err(), AuthError::UnsupportedLoginType);

    // No failed login wrote a record.
    assert_eq!(test.tokens.len(), 0);
}

#[test]
fn login_with_qualified_user() {
    let mut test = Test::new();
    test.register_user(r#"{"username": "carl", "password": "secret"}"#).unwrap();
    let response = test
        .post(
            "/_matrix/client/r0/login",
            r#"{"type": "m.login.password", "user": "@carl:ruma.test", "password": "secret"}"#,
        )
        .unwrap();
    assert_eq!(response.user_id.as_str(), "@carl:ruma.test");
    assert_eq!(response.user_id.localpart, "carl");
    assert_eq!(response.user_id.hostname, "ruma.test");
}

#[test]
fn every_login_issues_a_fresh_record() {
    let mut test = Test::new();
    test.register_user(r#"{"username": "carl", "password": "secret"}"#).unwrap();
    let request = LoginRequest::new("m.login.password", "carl", "secret").unwrap();
    let at = Instant { secs: chrono::Utc::now().timestamp(), nanos: 0 };
    let later = Instant { secs: at.secs + 1, nanos: at.nanos };
    let first = Login
        .handle_at(&request, &test.config, &test.users, &mut test.tokens, at)
        .unwrap();
    assert_eq!(test.tokens.len(), 1);
    let second = Login
        .handle_at(&request, &test.config, &test.users, &mut test.tokens, later)
        .unwrap();
    assert_eq!(test.tokens.len(), 2);
    assert_ne!(first.access_token, second.access_token);
    // The same login at the same instant would mint the same value, of
    // which the store takes no second record.
    let same = Login.handle_at(&request, &test.config, &test.users, &mut test.tokens, later);
    assert_eq!(same.unwrap_err(), AuthError::StorageError);
    assert_eq!(test.tokens.len(), 2);
    let key = test.config.macaroon_secret_key.clone();
    assert_eq!(
        validate(&first.access_token, &key, &test.tokens).unwrap().as_str(),
        "@carl:ruma.test"
    );
    assert_eq!(
        validate(&second.access_token, &key, &test.tokens).unwrap().as_str(),
        "@carl:ruma.test"
    );
}

#[test]
fn end_to_end() {
    let mut test = Test::new();
    let registered = test
        .register_user(r#"{"username": "carl", "password": "secret"}"#)
        .unwrap();
    assert_eq!(registered.user_id, "@carl:ruma.test");

    let response = test
        .post(
            "/_matrix/client/r0/login",
            r#"{"type": "m.login.password", "user": "carl", "password": "secret"}"#,
        )
        .unwrap();

    let wrong = test.post(
        "/_matrix/client/r0/login",
        r#"{"type": "m.login.password", "user": "carl", "password": "wrong"}"#,
    );
    assert_eq!(status(&wrong), Some(Status::Forbidden));

    let key = test.config.macaroon_secret_key.clone();
    let identity = validate(&response.access_token, &key, &test.tokens).unwrap();
    assert_eq!(identity.as_str(), "@carl:ruma.test");

    let mut token = AccessToken::find_valid_by_token(&test.tokens, &response.access_token)
        .unwrap()
        .unwrap();
    assert_eq!(token.id, 1);
    assert!(!token.revoked);
    assert_eq!(token.revoke(&mut test.tokens), Ok(()));
    assert!(token.revoked);

    assert_eq!(
        validate(&response.access_token, &key, &test.tokens).unwrap_err(),
        AuthError::InvalidToken
    );
    assert!(AccessToken::find_valid_by_token(&test.tokens, &response.access_token)
        .unwrap()
        .is_none());
}

#[test]
fn login_type_names() {
    assert_eq!(LoginType::parse("m.login.password"), Ok(LoginType::Password));
    assert_eq!(LoginType::parse("m.login.email"), Err(AuthError::UnsupportedLoginType));
    assert_eq!(LoginType::parse(""), Err(AuthError::UnsupportedLoginType));
    assert_eq!(LoginType::parse("M.LOGIN.PASSWORD"), Err(AuthError::UnsupportedLoginType));
    assert_eq!(LoginType::Password.name(), "m.login.password");
}

#[test]
fn registration_draws_a_name() {
    let mut test = Test::new();
    let registered = test.register_user(r#"{"password": "secret"}"#).unwrap();
    // "@" + twelve lower-case letters or digits + ":ruma.test"
    assert_eq!(registered.user_id.len(), 1 + 12 + 1 + "ruma.test".len());
    assert!(registered.user_id.starts_with('@'));
    assert!(registered.user_id.ends_with(":ruma.test"));
    let local = &registered.user_id[1..13];
    assert!(local.chars().all(|c| c.is_ascii_lowercase() || c.is_ascii_digit()));
    assert_eq!(test.users.len(), 1);
}

#[test]
fn registration_refuses_a_taken_name() {
    let mut test = Test::new();
    test.register_user(r#"{"username": "carl", "password": "secret"}"#).unwrap();
    let again = test.register_user(r#"{"username": "carl", "password": "other"}"#);
    assert_eq!(again.unwrap_err(), AuthError::StorageError);
    assert_eq!(test.users.len(), 1);
    // The first password still holds.
    assert!(test
        .post(
            "/_matrix/client/r0/login",
            r#"{"type": "m.login.password", "user": "carl", "password": "secret"}"#,
        )
        .is_ok());
}

#[test]
fn registration_refuses_foreign_and_invalid_names() {
    let mut test = Test::new();
    let foreign = test.register_user(r#"{"username": "@carl:other.org", "password": "secret"}"#);
    assert_eq!(foreign.unwrap_err(), AuthError::ForeignDomain);
    let invalid = test.register_user(r#"{"username": "ca:rl", "password": "secret"}"#);
    assert!(invalid.is_err());
    assert_eq!(test.users.len(), 0);
}

#[test]
fn registration_with_a_drawn_name_and_salt() {
    let mut test = Test::new();
    let request = RegistrationRequest {
        bind_email: None,
        password: "secret".to_string(),
        username: None,
    };
    let registered = Register
        .handle_with(&request, &test.config, &mut test.users, "Abc123xyz789", "0123456789abcdef")
        .unwrap();
    assert_eq!(registered.user_id, "@abc123xyz789:ruma.test");
    let stored = test.users.find("@abc123xyz789:ruma.test").unwrap();
    assert_eq!(stored.salt, "0123456789abcdef");
    assert_eq!(
        stored.password_hash,
        base64::encode(argon2rs::argon2i_simple("secret", "0123456789abcdef"))
    );

    // A requested name wins over the drawn one.
    let named = RegistrationRequest {
        bind_email: Some(false),
        password: "secret".to_string(),
        username: Some("carl".to_string()),
    };
    let registered = Register
        .handle_with(&named, &test.config, &mut test.users, "Abc123xyz789", "0123456789abcdef")
        .unwrap();
    assert_eq!(registered.user_id, "@carl:ruma.test");
    assert_eq!(test.users.len(), 2);
}

#[test]
fn registration_fails_on_a_salt_too_short_to_hash_with() {
    let mut test = Test::new();
    let request = RegistrationRequest {
        bind_email: None,
        password: "secret".to_string(),
        username: Some("carl".to_string()),
    };
    let result = Register.handle_with(&request, &test.config, &mut test.users, "unused", "short");
    assert_eq!(result.unwrap_err(), AuthError::CryptoError);
    assert_eq!(test.users.len(), 0);
}

#[test]
fn registered_salts_differ() {
    let mut test = Test::new();
    test.register_user(r#"{"username": "carl", "password": "secret"}"#).unwrap();
    test.register_user(r#"{"username": "dave", "password": "secret"}"#).unwrap();
    let carl = test.users.find("@carl:ruma.test").unwrap();
    let dave = test.users.find("@dave:ruma.test").unwrap();
    assert_eq!(carl.salt.len(), 16);
    assert_ne!(carl.salt, dave.salt);
    // The same password under different salts hashes differently.
    assert_ne!(carl.password_hash, dave.password_hash);
}
