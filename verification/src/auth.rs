//! The credential exchanges: registration (hash the password, persist the
//! record) and login (look the user up, verify the password, issue a
//! token). Neither exchange ever stores or returns a plain password.

use vstd::prelude::*;
use vstd::utf8::encode_utf8;
use crate::errors::AuthError;
use crate::password::{bcrypt_accepts, hash_password, verify_password};
use crate::store::{CredentialStore, find_by_username};
use crate::token::{TOKEN_VALIDITY_SECS, generate_jwt, token_bytes};
use crate::user::{LoginInput, LoginResponse, RegisterInput, User};

verus! {

/// Registers a new user: hashes the password, then persists the record.
/// Succeeds exactly when the username is free and hashing succeeded; the
/// stored hash accepts the given password, and a failure leaves the store
/// unchanged.
pub fn register_user(store: &mut CredentialStore, input: &RegisterInput) -> (r: Result<
    User,
    AuthError,
>)
    requires
        old(store).wf(),
        old(store).users@.len() < 0x7fff_fffe,
    ensures
        final(store).wf(),
        match r {
            Ok(u) => {
                &&& find_by_username(old(store).users@, input.username@) is None
                &&& final(store).users@.len() == old(store).users@.len() + 1
                &&& final(store).users@.subrange(0, old(store).users@.len() as int) == old(
                    store,
                ).users@
                &&& u == final(store).users@.last()
                &&& u.username@ == input.username@
                &&& bcrypt_accepts(input.password@, u.password_hash@)
            },
            Err(e) => {
                &&& *final(store) == *old(store)
                &&& (e == AuthError::Conflict || e == AuthError::StoreUnavailable)
                &&& (e == AuthError::Conflict ==> find_by_username(
                    old(store).users@,
                    input.username@,
                ) is Some)
            },
        },
{
    let hash = match hash_password(input.password.as_str()) {
        Ok(h) => h,
        Err(e) => {
            return Err(e);
        },
    };
    match store.create_user(input.username.as_str(), hash.as_str()) {
        Ok(i) => {
            let u = &store.users[i];
            let user = User {
                id: u.id,
                username: u.username.clone(),
                password_hash: u.password_hash.clone(),
            };
            Ok(user)
        },
        Err(e) => Err(e),
    }
}

/// Logs a user in: looks the username up, verifies the password against the
/// stored hash, and issues a token whose subject is the user's id. Succeeds
/// exactly when the user exists and the password is accepted; an unknown
/// user and a wrong password are the same refusal.
pub fn login_user(store: &CredentialStore, input: &LoginInput, secret: &[u8], now: u64) -> (r:
    Result<LoginResponse, AuthError>)
    requires
        now <= u64::MAX - TOKEN_VALIDITY_SECS,
    ensures
        match find_by_username(store.users@, input.username@) {
            None => r == Err::<LoginResponse, AuthError>(AuthError::CredentialInvalid),
            Some(u) => if bcrypt_accepts(input.password@, u.password_hash@) {
                r matches Ok(resp) && encode_utf8(resp.token@) == token_bytes(
                    u.id as int,
                    (now + TOKEN_VALIDITY_SECS) as nat,
                    secret@,
                )
            } else {
                r == Err::<LoginResponse, AuthError>(AuthError::CredentialInvalid)
            },
        },
{
    let i = match store.find_user_by_username(input.username.as_str()) {
        Some(i) => i,
        None => {
            return Err(AuthError::CredentialInvalid);
        },
    };
    let u = &store.users[i];
    if !verify_password(input.password.as_str(), u.password_hash.as_str()) {
        return Err(AuthError::CredentialInvalid);
    }
    let token = generate_jwt(u, secret, now);
    Ok(LoginResponse { token })
}

} // verus!
