use rusty_api::context::{extract_bearer, resolve_request, RequestContext};
use rusty_api::errors::AuthError;
use rusty_api::guard::{bearer_gate, check_password, shared_secret_gate};
use rusty_api::models;
use rusty_api::privilege::PrivilegeLevel;
use rusty_api::routes::{Protection, Routes};
use rusty_api::store::ApiKeyDirectory;

#[test]
fn query_secret_accepts_only_the_expected_password() {
    assert!(check_password("password=Password123", "Password123"));
    assert!(check_password("a=1&password=Password123&b=2", "Password123"));
    assert!(!check_password("password=wrong", "Password123"));
    assert!(!check_password("", "Password123"));
    assert!(!check_password("password=", "Password123"));
    assert!(!check_password("Password123", "Password123"));
    assert!(!check_password("xpassword=Password123", "Password123"));
    assert!(!check_password("password=Password1234", "Password123"));
    assert!(!check_password("password=Password12", "Password123"));
}

#[test]
fn query_secret_takes_the_value_after_the_first_equals() {
    // the value may itself contain '='
    assert!(check_password("password=a=b", "a=b"));
    assert!(!check_password("password=a=b", "a"));
    // empty segments are harmless
    assert!(check_password("&&password=x&&", "x"));
}

#[test]
fn shared_secret_gate_fails_closed() {
    assert_eq!(shared_secret_gate("password=Password123", "Password123"), Ok(()));
    let denied = shared_secret_gate("password=wrong", "Password123");
    assert_eq!(denied, Err(AuthError::CredentialInvalid));
    assert_eq!(denied.unwrap_err().http_status(), 401);
    assert_eq!(
        shared_secret_gate("", "Password123"),
        Err(AuthError::CredentialInvalid)
    );
}

#[test]
fn bearer_extraction_requires_the_scheme() {
    assert_eq!(extract_bearer("Bearer abc.def.ghi").as_deref(), Some("abc.def.ghi"));
    assert_eq!(extract_bearer("Bearer "), Some(String::new()));
    assert_eq!(extract_bearer("bearer abc"), None);
    assert_eq!(extract_bearer("Basic abc"), None);
    assert_eq!(extract_bearer("Bear"), None);
    assert_eq!(extract_bearer(""), None);
}

#[test]
fn bearer_gate_rejects_absent_and_invalid_tokens() {
    let secret: &[u8] = b"gate-secret";
    let now = 1700000000u64;
    assert_eq!(bearer_gate(None, secret, now), Err(AuthError::CredentialAbsent));
    assert_eq!(
        bearer_gate(Some("Basic abc"), secret, now),
        Err(AuthError::CredentialAbsent)
    );
    assert_eq!(
        bearer_gate(Some("Bearer junk"), secret, now),
        Err(AuthError::TokenMalformed)
    );
}

fn directory_with(key: &str, id: i32, level: i32) -> ApiKeyDirectory {
    let mut dir = ApiKeyDirectory::new();
    dir.add_user(models::User {
        id,
        email: format!("user{}@example.com", id),
        api_key: key.to_string(),
        privilege_level: level,
    })
    .expect("fresh key");
    dir
}

#[test]
fn interceptor_resolves_known_key_to_its_user() {
    let dir = directory_with("key-abc", 5, 2);
    let ctx = resolve_request(Some("Bearer key-abc"), &dir);
    assert_eq!(ctx.privilege, PrivilegeLevel::Admin);
    assert_eq!(ctx.user.as_ref().map(|u| u.id), Some(5));
}

#[test]
fn interceptor_resolves_unknown_or_absent_credentials_to_guest() {
    let dir = directory_with("key-abc", 5, 2);
    for header in [None, Some("Bearer nope"), Some("key-abc"), Some("Basic x")] {
        let ctx = resolve_request(header, &dir);
        assert!(ctx.user.is_none());
        assert_eq!(ctx.privilege, PrivilegeLevel::Guest);
    }
}

#[test]
fn repeated_resolution_of_the_same_request_is_identical() {
    let dir = directory_with("key-abc", 5, 1);
    let header = Some("Bearer key-abc");
    let first = resolve_request(header, &dir);
    for _ in 0..16 {
        let again = resolve_request(header, &dir);
        assert_eq!(again.privilege, first.privilege);
        assert_eq!(
            again.user.as_ref().map(|u| (u.id, u.privilege_level)),
            first.user.as_ref().map(|u| (u.id, u.privilege_level))
        );
    }
}

#[test]
fn guest_context_is_the_default() {
    let ctx = RequestContext::guest();
    assert!(ctx.user.is_none());
    assert_eq!(ctx.privilege, PrivilegeLevel::Guest);
}

#[test]
fn route_registry_keeps_declaration_order() {
    let routes = Routes::new()
        .add_route_with_password("/password_route", "Password123")
        .add_route("/open_route")
        .add_route_with_auth("/get_role");
    assert_eq!(routes.route_count(), 3);
    assert_eq!(routes.entry(0).path, "/password_route");
    match &routes.entry(0).protection {
        Protection::SharedSecret(p) => assert_eq!(p, "Password123"),
        other => panic!("unexpected protection: {:?}", other),
    }
    assert_eq!(routes.entry(1).path, "/open_route");
    assert!(matches!(routes.entry(1).protection, Protection::Open));
    assert!(matches!(routes.entry(2).protection, Protection::BearerRequired));
}
