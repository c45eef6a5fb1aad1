use rusty_api::context::RequestContext;
use rusty_api::errors::AuthError;
use rusty_api::gate::require_privilege;
use rusty_api::models::User;
use rusty_api::privilege::{compare, meets_minimum, privilege_from_i32, PrivilegeLevel};
use std::cmp::Ordering;

fn user_with_privilege(level: i32) -> User {
    User {
        id: 7,
        email: "someone@example.com".to_string(),
        api_key: "key-7".to_string(),
        privilege_level: level,
    }
}

#[test]
fn privilege_decode_rule() {
    assert_eq!(privilege_from_i32(0), PrivilegeLevel::Guest);
    assert_eq!(privilege_from_i32(1), PrivilegeLevel::User);
    assert_eq!(privilege_from_i32(2), PrivilegeLevel::Admin);
    // unknown integers fall back to Guest
    assert_eq!(privilege_from_i32(3), PrivilegeLevel::Guest);
    assert_eq!(privilege_from_i32(-1), PrivilegeLevel::Guest);
    assert_eq!(privilege_from_i32(i32::MAX), PrivilegeLevel::Guest);
}

#[test]
fn privilege_ordinals() {
    assert_eq!(PrivilegeLevel::Guest.as_i32(), 0);
    assert_eq!(PrivilegeLevel::User.as_i32(), 1);
    assert_eq!(PrivilegeLevel::Admin.as_i32(), 2);
}

#[test]
fn user_record_decodes_its_privilege() {
    assert_eq!(user_with_privilege(2).privilege_level(), PrivilegeLevel::Admin);
    assert_eq!(user_with_privilege(1).privilege_level(), PrivilegeLevel::User);
    assert_eq!(user_with_privilege(99).privilege_level(), PrivilegeLevel::Guest);
}

#[test]
fn meets_minimum_orders_all_pairs() {
    let levels = [
        PrivilegeLevel::Guest,
        PrivilegeLevel::User,
        PrivilegeLevel::Admin,
    ];
    for (i, a) in levels.iter().enumerate() {
        for (j, b) in levels.iter().enumerate() {
            assert_eq!(meets_minimum(*a, *b), i >= j);
        }
    }
}

#[test]
fn gate_rejects_below_and_accepts_at_or_above() {
    let guest = RequestContext::guest();
    let user_ctx = RequestContext::for_user(&user_with_privilege(1));
    let admin_ctx = RequestContext::for_user(&user_with_privilege(2));

    assert_eq!(
        require_privilege(PrivilegeLevel::Admin, &guest),
        Err(AuthError::InsufficientPrivilege)
    );
    assert_eq!(
        require_privilege(PrivilegeLevel::Admin, &user_ctx),
        Err(AuthError::InsufficientPrivilege)
    );
    assert_eq!(require_privilege(PrivilegeLevel::Admin, &admin_ctx), Ok(()));
    assert_eq!(require_privilege(PrivilegeLevel::User, &user_ctx), Ok(()));
    assert_eq!(require_privilege(PrivilegeLevel::User, &admin_ctx), Ok(()));
    assert_eq!(
        require_privilege(PrivilegeLevel::User, &guest),
        Err(AuthError::InsufficientPrivilege)
    );
    assert_eq!(require_privilege(PrivilegeLevel::Guest, &guest), Ok(()));
}

#[test]
fn error_kinds_map_to_fixed_statuses() {
    assert_eq!(AuthError::CredentialAbsent.http_status(), 401);
    assert_eq!(AuthError::CredentialInvalid.http_status(), 401);
    assert_eq!(AuthError::TokenExpired.http_status(), 401);
    assert_eq!(AuthError::TokenMalformed.http_status(), 401);
    assert_eq!(AuthError::SignatureInvalid.http_status(), 401);
    assert_eq!(AuthError::InsufficientPrivilege.http_status(), 403);
    assert_eq!(AuthError::StoreUnavailable.http_status(), 503);
    assert_eq!(AuthError::Conflict.http_status(), 400);
}

#[test]
fn error_reasons_carry_no_internal_detail() {
    assert_eq!(AuthError::TokenExpired.reason(), "token expired");
    assert_eq!(AuthError::SignatureInvalid.reason(), "signature invalid");
    assert_eq!(AuthError::StoreUnavailable.reason(), "store unavailable");
    assert_eq!(AuthError::Conflict.reason(), "username already taken");
}

#[test]
fn compare_orders_by_ordinal() {
    assert_eq!(compare(PrivilegeLevel::Guest, PrivilegeLevel::Admin), Ordering::Less);
    assert_eq!(compare(PrivilegeLevel::Admin, PrivilegeLevel::Guest), Ordering::Greater);
    assert_eq!(compare(PrivilegeLevel::User, PrivilegeLevel::User), Ordering::Equal);
}
