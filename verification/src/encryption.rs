//! Password hashing and verification on top of the bcrypt primitive.
//!
//! The primitive is trusted; everything stated of it is what its source
//! shows: verification is a pure function of password and stored hash,
//! and a freshly produced hash verifies against the password it was made
//! from.  Callers run these on a worker pool so the request scheduler is
//! never blocked; that offload is plumbing outside this library.

use vstd::prelude::*;
use vstd::string::StringSliceAdditionalSpecFns;

use crate::error::AuthError;

verus! {

/// What bcrypt verification decides for a password and a stored hash
/// string, both as UTF-8 bytes: `None` when the stored hash is not a
/// well-formed bcrypt hash, otherwise whether the password matches.
/// Deterministic in its arguments; nothing else enters the decision.
pub uninterp spec fn bcrypt_verdict(password: Seq<u8>, hashed: Seq<u8>) -> Option<bool>;

/// Relies on `bcrypt::hash` with the crate's default cost: the salt is
/// drawn fresh, and whatever hash comes back, `bcrypt::verify` accepts
/// the same password against it.  Fails only when the system's
/// randomness source does.
#[verifier::external_body]
fn bcrypt_hash(password: &str) -> (r: Option<String>)
    ensures
        r matches Some(h) ==> bcrypt_verdict(
            password.spec_bytes(),
            vstd::utf8::encode_utf8(h@),
        ) == Some(true),
{
    bcrypt::hash(password, bcrypt::DEFAULT_COST).ok()
}

/// Relies on `bcrypt::verify`: it re-derives cost and salt from the
/// stored hash and recomputes, a pure function of the two arguments;
/// its error cases are exactly a malformed stored hash.
#[verifier::external_body]
fn bcrypt_verify(password: &str, hashed: &str) -> (r: Option<bool>)
    ensures
        r == bcrypt_verdict(password.spec_bytes(), hashed.spec_bytes()),
{
    bcrypt::verify(password, hashed).ok()
}

/// Hashes a password for storage.  The returned hash verifies against
/// the password it was made from -- the hash-then-verify round trip --
/// and a primitive failure is reported, never a silent default.
pub fn hash(password: String) -> (r: Result<String, AuthError>)
    ensures
        r matches Ok(h) ==> bcrypt_verdict(
            vstd::utf8::encode_utf8(password@),
            vstd::utf8::encode_utf8(h@),
        ) == Some(true),
        r matches Err(e) ==> e == AuthError::HashingError,
{
    match bcrypt_hash(password.as_str()) {
        Some(h) => Ok(h),
        None => Err(AuthError::HashingError),
    }
}

/// Decides whether `password` matches the stored `hashed` string,
/// exactly as the bcrypt primitive decides it; a malformed stored hash is a typed
/// failure, distinct from a wrong password.
pub fn verify(password: String, hashed: String) -> (r: Result<bool, AuthError>)
    ensures
        ({
            let v = bcrypt_verdict(
                vstd::utf8::encode_utf8(password@),
                vstd::utf8::encode_utf8(hashed@),
            );
            match r {
                Ok(b) => v == Some(b),
                Err(e) => v is None && e == AuthError::HashingError,
            }
        }),
{
    match bcrypt_verify(password.as_str(), hashed.as_str()) {
        Some(b) => Ok(b),
        None => Err(AuthError::HashingError),
    }
}

} // verus!
