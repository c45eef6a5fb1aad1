//! Error taxonomy of the access-control core. Every per-request error kind
//! maps to a fixed HTTP status and a machine-readable reason string; none of
//! them carries internal detail from a collaborator.

use vstd::prelude::*;

verus! {

/// Why a request or a credential exchange was refused.
#[derive(Clone, Copy, Debug, PartialEq, Eq, Structural)]
pub enum AuthError {
    /// No token, key or secret was presented. On identity resolution this is
    /// not an error (the caller becomes a guest); on guarded routes it is a
    /// rejection.
    CredentialAbsent,
    /// A credential was presented and does not match: wrong password or
    /// unknown username or API key.
    CredentialInvalid,
    /// A structurally valid, correctly signed token whose expiry is not in
    /// the future.
    TokenExpired,
    /// A token that does not parse as header, claims and signature.
    TokenMalformed,
    /// A structurally valid token whose signature does not match the
    /// server-held secret.
    SignatureInvalid,
    /// A resolved identity whose privilege is below a route's minimum.
    InsufficientPrivilege,
    /// The credential store could not answer (infrastructure failure);
    /// never conflated with "not found".
    StoreUnavailable,
    /// Registration refused because the username is already taken.
    Conflict,
}

impl AuthError {
    /// The fixed HTTP status for this error kind.
    pub open spec fn spec_status(self) -> u16 {
        match self {
            AuthError::CredentialAbsent => 401,
            AuthError::CredentialInvalid => 401,
            AuthError::TokenExpired => 401,
            AuthError::TokenMalformed => 401,
            AuthError::SignatureInvalid => 401,
            AuthError::InsufficientPrivilege => 403,
            AuthError::StoreUnavailable => 503,
            AuthError::Conflict => 400,
        }
    }

    /// HTTP status code this error maps to.
    pub fn http_status(self) -> (s: u16)
        ensures
            s == self.spec_status(),
    {
        match self {
            AuthError::CredentialAbsent => 401,
            AuthError::CredentialInvalid => 401,
            AuthError::TokenExpired => 401,
            AuthError::TokenMalformed => 401,
            AuthError::SignatureInvalid => 401,
            AuthError::InsufficientPrivilege => 403,
            AuthError::StoreUnavailable => 503,
            AuthError::Conflict => 400,
        }
    }

    /// The machine-readable reason for this error kind.
    pub open spec fn spec_reason(self) -> Seq<char> {
        match self {
            AuthError::CredentialAbsent => "credential absent"@,
            AuthError::CredentialInvalid => "credential invalid"@,
            AuthError::TokenExpired => "token expired"@,
            AuthError::TokenMalformed => "token malformed"@,
            AuthError::SignatureInvalid => "signature invalid"@,
            AuthError::InsufficientPrivilege => "insufficient privilege"@,
            AuthError::StoreUnavailable => "store unavailable"@,
            AuthError::Conflict => "username already taken"@,
        }
    }

    /// Machine-readable reason string; carries no collaborator detail.
    pub fn reason(self) -> (r: &'static str)
        ensures
            r@ == self.spec_reason(),
    {
        match self {
            AuthError::CredentialAbsent => "credential absent",
            AuthError::CredentialInvalid => "credential invalid",
            AuthError::TokenExpired => "token expired",
            AuthError::TokenMalformed => "token malformed",
            AuthError::SignatureInvalid => "signature invalid",
            AuthError::InsufficientPrivilege => "insufficient privilege",
            AuthError::StoreUnavailable => "store unavailable",
            AuthError::Conflict => "username already taken",
        }
    }
}

} // verus!
