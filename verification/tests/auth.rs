use myapp::auth::{
    authenticate, build_session_cookie, complete_login, finish_login, locate_token, logout,
    resolve_identity, start_login, AuthPayload, CurrentUser, LoginStep, SameSitePolicy,
    StoreReply, User, UserLookup, UserToClaim,
};
use myapp::configuration::Environment;
use myapp::encryption::hash;
use myapp::error::AuthError;
use myapp::jwt::{decode, encode, Claims, Role};

fn key() -> Vec<u8> {
    b"another-test-secret".to_vec()
}

fn attempt(email: &str, password: &str) -> AuthPayload {
    AuthPayload {
        email: email.to_string(),
        password: password.to_string(),
    }
}

/// A store double that counts how often it is consulted.
struct CountingStore {
    row: Option<UserToClaim>,
    lookups: usize,
}

impl CountingStore {
    fn fetch(&mut self, _email: &str) -> StoreReply {
        self.lookups += 1;
        match &self.row {
            Some(u) => StoreReply::Found(u.clone()),
            None => StoreReply::Missing,
        }
    }
}

fn validate(store: &mut CountingStore, attempt: &AuthPayload) -> Result<(u128, Role), AuthError> {
    match start_login(attempt) {
        LoginStep::Reject(e) => Err(e),
        LoginStep::Lookup(email) => {
            let reply = store.fetch(&email);
            finish_login(attempt, reply)
        }
    }
}

fn admin_row(password: &str) -> UserToClaim {
    UserToClaim {
        id: 77,
        hashed_password: hash(password.to_string()).unwrap(),
        is_superuser: true,
        is_verified: true,
    }
}

#[test]
fn empty_credentials_skip_the_store() {
    let mut store = CountingStore {
        row: Some(admin_row("p1")),
        lookups: 0,
    };
    assert_eq!(
        validate(&mut store, &attempt("", "p1")),
        Err(AuthError::MissingCredentials)
    );
    assert_eq!(
        validate(&mut store, &attempt("a@x.com", "")),
        Err(AuthError::MissingCredentials)
    );
    assert_eq!(store.lookups, 0);
}

#[test]
fn wrong_password_and_unknown_email_look_identical() {
    let row = admin_row("p1");
    let wrong_password = finish_login(&attempt("a@x.com", "wrong"), StoreReply::Found(row));
    let unknown_email = finish_login(&attempt("missing@x.com", "p1"), StoreReply::Missing);
    assert_eq!(wrong_password, Err(AuthError::WrongCredentials));
    assert_eq!(unknown_email, Err(AuthError::WrongCredentials));
    assert_eq!(wrong_password, unknown_email);
}

#[test]
fn unverified_user_is_not_wrong_credentials() {
    let row = UserToClaim {
        id: 5,
        hashed_password: hash("pw".to_string()).unwrap(),
        is_superuser: false,
        is_verified: false,
    };
    let outcome = finish_login(&attempt("u@x.com", "pw"), StoreReply::Found(row));
    assert_eq!(outcome, Err(AuthError::UnverifiedUser));
}

#[test]
fn admin_login_scenario() {
    let mut store = CountingStore {
        row: Some(admin_row("p1")),
        lookups: 0,
    };
    assert_eq!(
        validate(&mut store, &attempt("a@x.com", "p1")),
        Ok((77, Role::Admin))
    );
    assert_eq!(
        validate(&mut store, &attempt("a@x.com", "wrong")),
        Err(AuthError::WrongCredentials)
    );
    let mut empty_store = CountingStore {
        row: None,
        lookups: 0,
    };
    assert_eq!(
        validate(&mut empty_store, &attempt("missing@x.com", "p1")),
        Err(AuthError::WrongCredentials)
    );
}

#[test]
fn store_failure_is_its_own_error() {
    assert_eq!(
        finish_login(&attempt("a@x.com", "p1"), StoreReply::Failure),
        Err(AuthError::StoreError)
    );
}

#[test]
fn bearer_header_beats_cookie() {
    let token_a = encode(&Claims::new(1, Role::Admin), &key()).unwrap();
    let token_b = encode(&Claims::new(2, Role::User), &key()).unwrap();
    let claims = authenticate(Some(token_a), Some(token_b), &key(), 0).unwrap();
    assert_eq!(claims.sub, 1);
    assert_eq!(claims.role, Role::Admin);
}

#[test]
fn invalid_bearer_is_not_rescued_by_valid_cookie() {
    let token_b = encode(&Claims::new(2, Role::User), &key()).unwrap();
    let outcome = authenticate(
        Some("not-a-token".to_string()),
        Some(token_b),
        &key(),
        0,
    );
    assert_eq!(outcome, Err(AuthError::InvalidToken));
}

#[test]
fn cookie_serves_when_no_header() {
    let token_b = encode(&Claims::new(2, Role::User), &key()).unwrap();
    let claims = authenticate(None, Some(token_b), &key(), 0).unwrap();
    assert_eq!(claims.sub, 2);
}

#[test]
fn no_token_anywhere_is_missing_credentials() {
    assert_eq!(
        authenticate(None, None, &key(), 0),
        Err(AuthError::MissingCredentials)
    );
    assert!(matches!(
        locate_token(None, None),
        Err(AuthError::MissingCredentials)
    ));
}

#[test]
fn logout_always_instructs_cookie_removal() {
    // no session existed, and none is consulted: removal all the same
    let first = logout();
    assert_eq!(first.name, "access_token");
    // idempotent: a second logout gives the same instruction
    let second = logout();
    assert_eq!(second.name, "access_token");
}

#[test]
fn login_cookie_follows_the_policy() {
    let cookie = build_session_cookie("tok".to_string(), Environment::Production);
    assert_eq!(cookie.name, "access_token");
    assert_eq!(cookie.value, "tok");
    assert!(cookie.http_only);
    assert!(cookie.secure);
    assert_eq!(cookie.same_site, SameSitePolicy::AnyOrigin);
    assert_eq!(cookie.max_age_seconds, 3600);
    assert_eq!(cookie.path, "/");

    let local = build_session_cookie("tok".to_string(), Environment::Local);
    assert!(!local.secure);
    let dev = build_session_cookie("tok".to_string(), Environment::Development);
    assert!(dev.secure);
}

#[test]
fn complete_login_issues_a_working_token() {
    let success = complete_login(
        &attempt("a@x.com", "p1"),
        StoreReply::Found(admin_row("p1")),
        &key(),
        Environment::Local,
    )
    .unwrap();
    assert_eq!(success.body.token_type, "Bearer");
    assert_eq!(success.cookie.value, success.body.access_token);
    assert!(!success.cookie.secure);
    let claims = decode(&success.body.access_token, &key()).unwrap();
    assert_eq!(claims.sub, 77);
    assert_eq!(claims.role, Role::Admin);
}

#[test]
fn complete_login_rejects_like_finish_login() {
    let outcome = complete_login(
        &attempt("a@x.com", "nope"),
        StoreReply::Found(admin_row("p1")),
        &key(),
        Environment::Local,
    );
    assert!(matches!(outcome, Err(AuthError::WrongCredentials)));
}

#[test]
fn resolve_identity_takes_role_from_claims() {
    let claims = Claims {
        exp: 1000,
        iat: 0,
        sub: 3,
        role: Role::Admin,
    };
    let row = User {
        id: 3,
        email: "u@x.com".to_string(),
        name: "U".to_string(),
        is_active: true,
        is_verified: true,
        // the row says plain user, but the claims fixed Admin at issuance
        is_superuser: false,
    };
    let identity = resolve_identity(&claims, UserLookup::Found(row)).unwrap();
    assert_eq!(identity.id, 3);
    assert_eq!(identity.role, Role::Admin);
    assert_eq!(identity.email, "u@x.com");
}

#[test]
fn vanished_user_is_an_authorization_failure() {
    let claims = Claims {
        exp: 1000,
        iat: 0,
        sub: 3,
        role: Role::User,
    };
    assert!(matches!(
        resolve_identity(&claims, UserLookup::Missing),
        Err(AuthError::InvalidToken)
    ));
    assert!(matches!(
        resolve_identity(&claims, UserLookup::Failure),
        Err(AuthError::StoreError)
    ));
}

#[test]
fn identity_from_record_derives_role_from_flag() {
    let row = User {
        id: 8,
        email: "s@x.com".to_string(),
        name: "S".to_string(),
        is_active: true,
        is_verified: true,
        is_superuser: true,
    };
    let identity = CurrentUser::from_record(row);
    assert_eq!(identity.role, Role::Admin);
    assert_eq!(identity.id, 8);
}

#[test]
fn display_strings_name_the_user() {
    let claims = Claims {
        exp: 1000,
        iat: 0,
        sub: 12345,
        role: Role::User,
    };
    assert_eq!(claims.display_string(), "User ID: 12345");
    let identity = CurrentUser {
        id: 1,
        name: "U".to_string(),
        email: "u@x.com".to_string(),
        role: Role::User,
    };
    assert_eq!(identity.display_string(), "User: U,\n Email: u@x.com");
}

#[test]
fn error_statuses_follow_the_mapping() {
    assert_eq!(AuthError::WrongCredentials.status_code(), 401);
    assert_eq!(AuthError::MissingCredentials.status_code(), 401);
    assert_eq!(AuthError::UnverifiedUser.status_code(), 401);
    assert_eq!(AuthError::InvalidToken.status_code(), 401);
    assert_eq!(AuthError::ExpiredSignature.status_code(), 401);
    assert_eq!(AuthError::EmailExists.status_code(), 409);
    assert_eq!(AuthError::TokenCreation.status_code(), 500);
    assert_eq!(AuthError::ComputationAborted.status_code(), 500);
    assert_eq!(AuthError::HashingError.status_code(), 500);
    assert_eq!(AuthError::StoreError.status_code(), 500);
    assert_eq!(AuthError::WrongCredentials.message(), "Wrong credentials");
    assert_eq!(AuthError::ComputationAborted.message(), "Computation aborted");
    assert_eq!(AuthError::HashingError.message(), "Hashing error");
    assert_eq!(AuthError::StoreError.message(), "Store error");
}
