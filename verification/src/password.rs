//! Password hashing and verification, delegated to bcrypt as the pluggable
//! one-way primitive: salted, deliberately slow, never reversible.

use vstd::prelude::*;
use crate::errors::AuthError;

verus! {

/// Whether bcrypt accepts the password against the hash: the result of
/// `bcrypt::verify` with a verification error counted as "does not match".
/// A fixed function of password and hash alone; nothing here states its
/// value on any particular pair.
pub uninterp spec fn bcrypt_accepts(password: Seq<char>, hash: Seq<char>) -> bool;

/// The bcrypt work factor, inside its accepted range of 4 to 31.
pub const BCRYPT_COST: u32 = 12;

/// One-way hash of a password under a fresh random salt.
///
/// Relies on bcrypt's `hash` with an in-range cost: it can fail only when
/// the operating system's randomness source fails (mapped here to
/// `StoreUnavailable`, the infrastructure-failure kind), and a hash it does
/// produce is accepted by `verify` for the same password.
#[verifier::external_body]
pub fn hash_password(password: &str) -> (r: Result<String, AuthError>)
    ensures
        r matches Ok(h) ==> bcrypt_accepts(password@, h@),
        r matches Err(e) ==> e == AuthError::StoreUnavailable,
{
    match bcrypt::hash(password, BCRYPT_COST) {
        Ok(h) => Ok(h),
        Err(_) => Err(AuthError::StoreUnavailable),
    }
}

/// Whether the password matches the hash.
///
/// Relies on bcrypt's `verify`, a deterministic recomputation from the salt
/// and cost carried in the hash; an error (malformed hash) counts as "does
/// not match" and is never propagated.
#[verifier::external_body]
pub fn verify_password(password: &str, hash: &str) -> (r: bool)
    ensures
        r == bcrypt_accepts(password@, hash@),
{
    bcrypt::verify(password, hash).unwrap_or(false)
}

/// A password always verifies against a hash freshly made from it: whenever
/// hashing succeeds, verification of the same password is true.
pub fn password_round_trip(password: &str) -> (r: Result<bool, AuthError>)
    ensures
        r matches Ok(accepted) ==> accepted,
{
    match hash_password(password) {
        Ok(h) => Ok(verify_password(password, h.as_str())),
        Err(e) => Err(e),
    }
}

} // verus!
