//! Login validation, identity resolution, and the session cookie policy.
//!
//! The credential store is an outside collaborator reached over I/O, so
//! validation is split in two verified halves around the one lookup the
//! embedding program performs: `start_login` decides whether a lookup is
//! needed at all (empty credentials are rejected before any store
//! round-trip), and `finish_login` turns the lookup's reply into the
//! final verdict, calling the hashing primitive itself.  The same shape
//! serves identity resolution: `authenticate` finds and verifies the
//! request's token, and `resolve_identity` turns the subsequent store
//! reply into the request-scoped identity.

use vstd::prelude::*;
use vstd::string::StringSliceAdditionalSpecFns;

use crate::configuration::Environment;
use crate::encryption::{bcrypt_verdict, verify};
use crate::error::AuthError;
use crate::jwt::{decode_at, encode, token_for, wf_claims, Claims, Role, TOKEN_TTL_SECS};

verus! {

/// A login attempt: the credentials as they arrived.  Consumed by one
/// validation and never retained.
#[derive(Clone, Debug)]
pub struct AuthPayload {
    pub email: String,
    pub password: String,
}

/// A user row as the store returns it.
#[derive(Clone, Debug)]
pub struct User {
    pub id: u128,
    pub email: String,
    pub name: String,
    pub is_active: bool,
    pub is_verified: bool,
    pub is_superuser: bool,
}

/// What a registration carries.
#[derive(Clone, Debug)]
pub struct CreateUser {
    pub email: String,
    pub password: String,
    pub name: String,
}

/// The slice of a user row that validation needs.
#[derive(Clone, Debug)]
pub struct UserToClaim {
    pub id: u128,
    pub hashed_password: String,
    pub is_superuser: bool,
    pub is_verified: bool,
}

/// The reply of a store lookup by email: the row, no row, or a store
/// failure (the last two are kept distinct on the way in, though a
/// missing row is reported to the caller exactly like a wrong password).
#[derive(Clone, Debug)]
pub enum StoreReply {
    Found(UserToClaim),
    Missing,
    Failure,
}

/// What validation asks of its driver after seeing the bare attempt.
#[derive(Clone, Debug)]
pub enum LoginStep {
    /// Fetch the credential row for this email and call `finish_login`.
    Lookup(String),
    /// Reject without touching the store.
    Reject(AuthError),
}

/// The role a credential row confers.
pub open spec fn role_of(is_superuser: bool) -> Role {
    if is_superuser {
        Role::Admin
    } else {
        Role::User
    }
}

/// The complete validation outcome, as a function of the store reply
/// and what the hashing primitive decides of (password, stored hash):
/// store failures surface as such; no row and a non-matching password
/// are the same failure; a matching password on an unverified account
/// is its own failure; otherwise the user id and role are confirmed.
pub open spec fn spec_login_outcome(reply: StoreReply, verdict: Option<bool>) -> Result<
    (u128, Role),
    AuthError,
> {
    match reply {
        StoreReply::Failure => Err(AuthError::StoreError),
        StoreReply::Missing => Err(AuthError::WrongCredentials),
        StoreReply::Found(u) => match verdict {
            None => Err(AuthError::HashingError),
            Some(false) => Err(AuthError::WrongCredentials),
            Some(true) => if u.is_verified {
                Ok((u.id, role_of(u.is_superuser)))
            } else {
                Err(AuthError::UnverifiedUser)
            },
        },
    }
}

/// First half of validation: empty credentials are rejected here, with
/// no store round-trip; anything else asks for exactly one lookup, by
/// the attempt's own email.
pub fn start_login(attempt: &AuthPayload) -> (r: LoginStep)
    ensures
        (attempt.email@.len() == 0 || attempt.password@.len() == 0) ==> (r matches
            LoginStep::Reject(e) && e == AuthError::MissingCredentials),
        (attempt.email@.len() > 0 && attempt.password@.len() > 0) ==> (r matches
            LoginStep::Lookup(em) && em@ == attempt.email@),
{
    if attempt.email.as_str().is_empty() || attempt.password.as_str().is_empty() {
        LoginStep::Reject(AuthError::MissingCredentials)
    } else {
        LoginStep::Lookup(attempt.email.clone())
    }
}

/// Turns a credential row and the hashing primitive's answer into the
/// outcome: a wrong password is `WrongCredentials`; a right password on
/// an unverified account is `UnverifiedUser` (checked only after the
/// password, so unverified status is never revealed to a wrong guess);
/// a right password on a verified account confirms id and role.
pub fn settle_login(user: &UserToClaim, matched: bool) -> (r: Result<(u128, Role), AuthError>)
    ensures
        !matched ==> r == Err::<(u128, Role), AuthError>(AuthError::WrongCredentials),
        matched && !user.is_verified ==> r == Err::<(u128, Role), AuthError>(
            AuthError::UnverifiedUser,
        ),
        matched && user.is_verified ==> r == Ok::<(u128, Role), AuthError>(
            (user.id, role_of(user.is_superuser)),
        ),
{
    if !matched {
        Err(AuthError::WrongCredentials)
    } else if !user.is_verified {
        Err(AuthError::UnverifiedUser)
    } else if user.is_superuser {
        Ok((user.id, Role::Admin))
    } else {
        Ok((user.id, Role::User))
    }
}

/// Second half of validation: the outcome for the store's reply,
/// exactly `spec_login_outcome` over what the hashing primitive decides.
pub fn finish_login(attempt: &AuthPayload, reply: StoreReply) -> (r: Result<
    (u128, Role),
    AuthError,
>)
    ensures
        reply matches StoreReply::Found(u) ==> r == spec_login_outcome(
            reply,
            bcrypt_verdict(
                vstd::utf8::encode_utf8(attempt.password@),
                vstd::utf8::encode_utf8(u.hashed_password@),
            ),
        ),
        reply is Missing ==> r == Err::<(u128, Role), AuthError>(AuthError::WrongCredentials),
        reply is Failure ==> r == Err::<(u128, Role), AuthError>(AuthError::StoreError),
{
    match reply {
        StoreReply::Failure => Err(AuthError::StoreError),
        StoreReply::Missing => Err(AuthError::WrongCredentials),
        StoreReply::Found(user) => {
            match verify(attempt.password.clone(), user.hashed_password.clone()) {
                Ok(matched) => settle_login(&user, matched),
                Err(_) => Err(AuthError::HashingError),
            }
        },
    }
}

/// Law: an unknown email and a wrong password are indistinguishable.
/// Whatever the hashing primitive would have decided, a missing row produces
/// exactly the failure a non-matching password produces.
pub proof fn lemma_wrong_password_indistinguishable(u: UserToClaim, v: Option<bool>)
    ensures
        spec_login_outcome(StoreReply::Found(u), Some(false)) == spec_login_outcome(
            StoreReply::Missing,
            v,
        ),
        spec_login_outcome(StoreReply::Found(u), Some(false)) == Err::<
            (u128, Role),
            AuthError,
        >(AuthError::WrongCredentials),
{
}

/// Law: a correct password on an unverified account fails as
/// `UnverifiedUser`, never as `WrongCredentials`.
pub proof fn lemma_unverified_is_not_wrong_credentials(u: UserToClaim)
    requires
        !u.is_verified,
    ensures
        spec_login_outcome(StoreReply::Found(u), Some(true)) == Err::<
            (u128, Role),
            AuthError,
        >(AuthError::UnverifiedUser),
        spec_login_outcome(StoreReply::Found(u), Some(true)) != Err::<
            (u128, Role),
            AuthError,
        >(AuthError::WrongCredentials),
{
}

/// The request-scoped identity a handler receives.
#[derive(Clone, Debug)]
pub struct CurrentUser {
    pub id: u128,
    pub name: String,
    pub email: String,
    pub role: Role,
}

/// The reply of a store lookup by id.
#[derive(Clone, Debug)]
pub enum UserLookup {
    Found(User),
    Missing,
    Failure,
}

/// Where a request carried its token, if anywhere: the bearer header
/// takes precedence, and its presence short-circuits the cookie even if
/// the header's token later fails -- a deliberate precedence rule.
pub fn locate_token(bearer: Option<String>, cookie: Option<String>) -> (r: Result<
    String,
    AuthError,
>)
    ensures
        bearer matches Some(b) ==> (r matches Ok(t) && t@ == b@),
        bearer is None ==> (match cookie {
            Some(ck) => r matches Ok(t) && t@ == ck@,
            None => r == Err::<String, AuthError>(AuthError::MissingCredentials),
        }),
{
    match bearer {
        Some(b) => Ok(b),
        None => match cookie {
            Some(ck) => Ok(ck),
            None => Err(AuthError::MissingCredentials),
        },
    }
}

/// Locates and verifies the request's token.  With no token anywhere
/// the request is missing credentials; with a bearer header present the
/// cookie is never consulted, so a failing header is never rescued by a
/// valid cookie; a located token is judged exactly as `decode_at`
/// judges it -- in particular, one that matches no claims under the key
/// is rejected as `InvalidToken`, never as anything milder.
pub fn authenticate(
    bearer: Option<String>,
    cookie: Option<String>,
    key: &Vec<u8>,
    now: i64,
) -> (r: Result<Claims, AuthError>)
    ensures
        bearer is None && cookie is None ==> r == Err::<Claims, AuthError>(
            AuthError::MissingCredentials,
        ),
        r matches Ok(c) ==> wf_claims(c) && now < c.exp,
        r matches Ok(c) ==> (match bearer {
            Some(b) => vstd::utf8::encode_utf8(b@) == token_for(c, key@),
            None => cookie matches Some(ck) && vstd::utf8::encode_utf8(ck@) == token_for(
                c,
                key@,
            ),
        }),
        bearer matches Some(b) ==> (forall|c: Claims|
            wf_claims(c) && vstd::utf8::encode_utf8(b@) == #[trigger] token_for(c, key@)
                ==> r == (if now < c.exp {
                Ok::<Claims, AuthError>(c)
            } else {
                Err::<Claims, AuthError>(AuthError::ExpiredSignature)
            })),
        bearer matches Some(b) ==> ((forall|c: Claims|
            wf_claims(c) ==> vstd::utf8::encode_utf8(b@) != #[trigger] token_for(c, key@))
            ==> r == Err::<Claims, AuthError>(AuthError::InvalidToken)),
        bearer is None ==> (match cookie {
            Some(ck) => (forall|c: Claims|
                wf_claims(c) && vstd::utf8::encode_utf8(ck@) == #[trigger] token_for(
                    c,
                    key@,
                ) ==> r == (if now < c.exp {
                    Ok::<Claims, AuthError>(c)
                } else {
                    Err::<Claims, AuthError>(AuthError::ExpiredSignature)
                })) && ((forall|c: Claims|
                wf_claims(c) ==> vstd::utf8::encode_utf8(ck@) != #[trigger] token_for(
                    c,
                    key@,
                )) ==> r == Err::<Claims, AuthError>(AuthError::InvalidToken)),
            None => r == Err::<Claims, AuthError>(AuthError::MissingCredentials),
        }),
{
    let token = match locate_token(bearer, cookie) {
        Ok(t) => t,
        Err(e) => {
            return Err(e);
        },
    };
    decode_at(token.as_str(), key, now)
}

/// Builds the full identity from verified claims and the store's reply
/// to the lookup of `claims.sub`.  The role comes from the claims, as
/// fixed at issuance, not from the row; a row that has disappeared since
/// issuance is an authorization failure, not a server error.
pub fn resolve_identity(claims: &Claims, lookup: UserLookup) -> (r: Result<
    CurrentUser,
    AuthError,
>)
    ensures
        lookup matches UserLookup::Found(u) ==> (r matches Ok(cu) && cu.id == u.id && cu.name@
            == u.name@ && cu.email@ == u.email@ && cu.role == claims.role),
        lookup is Missing ==> r == Err::<CurrentUser, AuthError>(AuthError::InvalidToken),
        lookup is Failure ==> r == Err::<CurrentUser, AuthError>(AuthError::StoreError),
{
    match lookup {
        UserLookup::Found(u) => Ok(
            CurrentUser { id: u.id, name: u.name, email: u.email, role: claims.role },
        ),
        UserLookup::Missing => Err(AuthError::InvalidToken),
        UserLookup::Failure => Err(AuthError::StoreError),
    }
}

impl CurrentUser {
    /// The line the application shows for an identity.
    pub fn display_string(&self) -> (r: String)
        ensures
            r@ == "User: "@ + self.name@ + ",\n Email: "@ + self.email@,
    {
        let mut r = String::from_str("User: ");
        r.append(self.name.as_str());
        r.append(",\n Email: ");
        r.append(self.email.as_str());
        r
    }

    /// The identity a row confers on its own, role derived from the
    /// row's superuser flag.
    pub fn from_record(user: User) -> (cu: CurrentUser)
        ensures
            cu.id == user.id,
            cu.name@ == user.name@,
            cu.email@ == user.email@,
            cu.role == role_of(user.is_superuser),
    {
        let role = if user.is_superuser {
            Role::Admin
        } else {
            Role::User
        };
        CurrentUser { id: user.id, name: user.name, email: user.email, role }
    }
}

/// The response body of a successful login.
#[derive(Clone, Debug)]
pub struct AuthBody {
    pub access_token: String,
    pub token_type: String,
}

impl AuthBody {
    /// Wraps a token for the response body; the token type is always
    /// `Bearer`.
    pub fn new(access_token: String) -> (r: AuthBody)
        ensures
            r.access_token@ == access_token@,
            r.token_type@ == "Bearer"@,
    {
        AuthBody { access_token, token_type: String::from_str("Bearer") }
    }
}

/// Cross-site policy of a cookie.
#[derive(Clone, Copy, Debug, PartialEq, Eq, Structural)]
pub enum SameSitePolicy {
    Strict,
    Lax,
    /// The most permissive setting: the cookie travels on requests from
    /// any origin, chosen because cross-origin frontends are expected.
    AnyOrigin,
}

/// Everything a session cookie carries.
#[derive(Clone, Debug)]
pub struct SessionCookie {
    pub name: String,
    pub value: String,
    pub http_only: bool,
    pub secure: bool,
    pub same_site: SameSitePolicy,
    pub max_age_seconds: i64,
    pub path: String,
}

/// An instruction to remove a cookie by name.
#[derive(Clone, Debug)]
pub struct CookieRemoval {
    pub name: String,
}

/// The session boundary policy on login: http-only always; secure in
/// every environment but explicit local development; cross-site fully
/// permissive; one hour of life; scoped to the whole application.
pub fn build_session_cookie(token: String, env: Environment) -> (ck: SessionCookie)
    ensures
        ck.name@ == "access_token"@,
        ck.value@ == token@,
        ck.http_only == true,
        ck.secure == !(env is Local),
        ck.same_site is AnyOrigin,
        ck.max_age_seconds == TOKEN_TTL_SECS,
        ck.path@ == "/"@,
{
    let secure = match env {
        Environment::Local => false,
        Environment::Development => true,
        Environment::Production => true,
    };
    SessionCookie {
        name: String::from_str("access_token"),
        value: token,
        http_only: true,
        secure,
        same_site: SameSitePolicy::AnyOrigin,
        max_age_seconds: TOKEN_TTL_SECS,
        path: String::from_str("/"),
    }
}

/// The session boundary policy on logout: unconditionally, whatever the
/// request carried, instruct removal of the session cookie.  Stateless
/// tokens are not invalidated server-side; they lapse at their expiry.
pub fn logout() -> (r: CookieRemoval)
    ensures
        r.name@ == "access_token"@,
{
    CookieRemoval { name: String::from_str("access_token") }
}

/// A completed login: the cookie to set and the body to send.
#[derive(Clone, Debug)]
pub struct LoginSuccess {
    pub cookie: SessionCookie,
    pub body: AuthBody,
}

/// Second half of the login endpoint: the outcome for the store's
/// reply, and a confirmed login is owed its fresh signed token,
/// delivered both as the session cookie (under the policy for `env`)
/// and as the bearer body.
pub fn complete_login(
    attempt: &AuthPayload,
    reply: StoreReply,
    key: &Vec<u8>,
    env: Environment,
) -> (r: Result<LoginSuccess, AuthError>)
    ensures
        reply is Missing ==> r == Err::<LoginSuccess, AuthError>(AuthError::WrongCredentials),
        reply is Failure ==> r == Err::<LoginSuccess, AuthError>(AuthError::StoreError),
        reply matches StoreReply::Found(u) ==> (match spec_login_outcome(
            reply,
            bcrypt_verdict(
                vstd::utf8::encode_utf8(attempt.password@),
                vstd::utf8::encode_utf8(u.hashed_password@),
            ),
        ) {
            Err(e) => r == Err::<LoginSuccess, AuthError>(e),
            Ok((uid, role)) => r matches Ok(s) && (exists|c: Claims|
                wf_claims(c) && c.sub == uid && c.role == role && c.exp == c.iat
                    + TOKEN_TTL_SECS && vstd::utf8::encode_utf8(
                    s.body.access_token@,
                ) == #[trigger] token_for(c, key@)),
        }),
        r matches Ok(s) ==> s.cookie.value@ == s.body.access_token@ && s.cookie.name@
            == "access_token"@ && s.cookie.http_only && s.cookie.secure == !(env is Local)
            && s.cookie.same_site is AnyOrigin && s.cookie.max_age_seconds == TOKEN_TTL_SECS
            && s.cookie.path@ == "/"@ && s.body.token_type@ == "Bearer"@,
{
    let (user_id, role) = match finish_login(attempt, reply) {
        Ok(p) => p,
        Err(e) => {
            return Err(e);
        },
    };
    let claims = Claims::new(user_id, role);
    let token = match encode(&claims, key) {
        Ok(t) => t,
        Err(_) => {
            return Err(AuthError::TokenCreation);
        },
    };
    let cookie = build_session_cookie(token.clone(), env);
    Ok(LoginSuccess { cookie, body: AuthBody::new(token) })
}

} // verus!
