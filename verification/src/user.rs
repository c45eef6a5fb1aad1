//! Identity records and exchange payloads for the login deployment variant:
//! a user owns a password hash and authenticates by username and password.

use vstd::prelude::*;

verus! {

/// A user as stored by the persistence engine for password authentication.
#[derive(Clone, Debug)]
pub struct User {
    /// Unique identifier (primary key in the store).
    pub id: i32,
    /// Unique username of the user.
    pub username: String,
    /// One-way salted hash of the user's password; never the password itself.
    pub password_hash: String,
}

/// Input of a registration exchange.
#[derive(Clone, Debug)]
pub struct RegisterInput {
    pub username: String,
    pub password: String,
}

/// Input of a login exchange.
#[derive(Clone, Debug)]
pub struct LoginInput {
    pub username: String,
    pub password: String,
}

/// Successful login answer: the signed bearer token.
#[derive(Clone, Debug)]
pub struct LoginResponse {
    pub token: String,
}

} // verus!
