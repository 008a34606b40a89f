//! Typed failures and their mapping to response status codes.

use vstd::prelude::*;

verus! {

/// Everything that can go wrong while validating credentials, issuing or
/// verifying tokens, or resolving an identity.
#[derive(Clone, Copy, Debug, PartialEq, Eq, Structural)]
pub enum AuthError {
    /// Unknown email or wrong password; the two are indistinguishable on
    /// purpose, so that account existence never leaks.
    WrongCredentials,
    /// Empty email or password, or no token on the request.
    MissingCredentials,
    /// Password was right but the account is not verified yet.
    UnverifiedUser,
    /// The token is malformed, forged, or its subject no longer resolves.
    InvalidToken,
    /// The token is genuine but past its expiry instant.
    ExpiredSignature,
    /// The signing primitive refused to produce a token.
    TokenCreation,
    /// Registration conflict: the email is already taken.
    EmailExists,
    /// The offloaded hashing computation was lost before it delivered.
    ComputationAborted,
    /// The hashing library itself failed (for instance on a malformed
    /// stored hash); distinct from a wrong password.
    HashingError,
    /// The credential store failed; distinct from "no such user".
    StoreError,
}

impl AuthError {
    /// The response status this failure maps to: credential and token
    /// failures (expiry included) are unauthorized, a registration
    /// conflict is a conflict, everything else is an internal error.
    pub fn status_code(&self) -> (code: u16)
        ensures
            code == self.spec_status_code(),
    {
        match self {
            AuthError::WrongCredentials => 401,
            AuthError::MissingCredentials => 401,
            AuthError::UnverifiedUser => 401,
            AuthError::InvalidToken => 401,
            AuthError::ExpiredSignature => 401,
            AuthError::TokenCreation => 500,
            AuthError::EmailExists => 409,
            AuthError::ComputationAborted => 500,
            AuthError::HashingError => 500,
            AuthError::StoreError => 500,
        }
    }

    /// Status mapping: 401 for everything a caller may not do, 409 for
    /// the registration conflict, 500 for the rest.
    pub open spec fn spec_status_code(&self) -> u16 {
        match self {
            AuthError::WrongCredentials => 401,
            AuthError::MissingCredentials => 401,
            AuthError::UnverifiedUser => 401,
            AuthError::InvalidToken => 401,
            AuthError::ExpiredSignature => 401,
            AuthError::TokenCreation => 500,
            AuthError::EmailExists => 409,
            AuthError::ComputationAborted => 500,
            AuthError::HashingError => 500,
            AuthError::StoreError => 500,
        }
    }

    /// A short human-readable description.  Does not distinguish a wrong
    /// password from an unknown email.
    pub fn message(&self) -> (m: &'static str)
        ensures
            self is WrongCredentials ==> m@ == "Wrong credentials"@,
            self is MissingCredentials ==> m@ == "Missing credentials"@,
            self is UnverifiedUser ==> m@ == "Unverified user"@,
            self is InvalidToken ==> m@ == "Invalid token"@,
            self is ExpiredSignature ==> m@ == "Expired token"@,
            self is TokenCreation ==> m@ == "Token creation error"@,
            self is EmailExists ==> m@ == "Email already exists"@,
            self is ComputationAborted ==> m@ == "Computation aborted"@,
            self is HashingError ==> m@ == "Hashing error"@,
            self is StoreError ==> m@ == "Store error"@,
    {
        match self {
            AuthError::WrongCredentials => "Wrong credentials",
            AuthError::MissingCredentials => "Missing credentials",
            AuthError::UnverifiedUser => "Unverified user",
            AuthError::InvalidToken => "Invalid token",
            AuthError::ExpiredSignature => "Expired token",
            AuthError::TokenCreation => "Token creation error",
            AuthError::EmailExists => "Email already exists",
            AuthError::ComputationAborted => "Computation aborted",
            AuthError::HashingError => "Hashing error",
            AuthError::StoreError => "Store error",
        }
    }
}

/// Failures shared by the plain content handlers.
#[derive(Clone, Debug)]
pub enum CommonError {
    NotFound,
    ValidationError(String),
    UnexpectedError(String),
}

impl CommonError {
    /// 404 for a missing resource, 400 for a rejected input, 500
    /// otherwise.
    pub fn status_code(&self) -> (code: u16)
        ensures
            self is NotFound ==> code == 404,
            self is ValidationError ==> code == 400,
            self is UnexpectedError ==> code == 500,
    {
        match self {
            CommonError::NotFound => 404,
            CommonError::ValidationError(_) => 400,
            CommonError::UnexpectedError(_) => 500,
        }
    }
}

/// Failures of the catalog routes.
#[derive(Clone, Debug)]
pub enum CatalogError {
    NotFound,
    NotImplemented,
    UnexpectedError(String),
}

impl CatalogError {
    /// Missing and unimplemented resources both read as 404; anything
    /// else is an internal error.
    pub fn status_code(&self) -> (code: u16)
        ensures
            self is NotFound ==> code == 404,
            self is NotImplemented ==> code == 404,
            self is UnexpectedError ==> code == 500,
    {
        match self {
            CatalogError::NotFound => 404,
            CatalogError::NotImplemented => 404,
            CatalogError::UnexpectedError(_) => 500,
        }
    }
}

/// A catch-all failure carrying only its description; always an
/// internal error.
#[derive(Clone, Debug)]
pub struct AnyError {
    pub message: String,
}

impl AnyError {
    /// Always an internal error.
    pub fn status_code(&self) -> (code: u16)
        ensures
            code == 500,
    {
        500
    }
}

} // verus!
