use rusty_api::errors::AuthError;
use rusty_api::models;
use rusty_api::password::{hash_password, password_round_trip, verify_password};
use rusty_api::store::{ApiKeyDirectory, CredentialStore};

#[test]
fn password_round_trip_matches() {
    let hash = hash_password("s3cr3t").expect("hashing succeeds");
    assert!(verify_password("s3cr3t", &hash));
    // a second hash of the same password uses a fresh salt yet still matches
    let hash2 = hash_password("s3cr3t").expect("hashing succeeds");
    assert_ne!(hash, hash2);
    assert!(verify_password("s3cr3t", &hash2));
}

#[test]
fn wrong_password_does_not_match() {
    let hash = hash_password("correct horse").expect("hashing succeeds");
    assert!(!verify_password("correct horsf", &hash));
    assert!(!verify_password("", &hash));
    assert!(!verify_password("CORRECT HORSE", &hash));
}

#[test]
fn hash_is_not_the_password() {
    let hash = hash_password("tiny").expect("hashing succeeds");
    assert_ne!(hash, "tiny");
    // bcrypt's format: 60 bytes, versioned
    assert_eq!(hash.len(), 60);
    assert!(hash.starts_with("$2"));
}

#[test]
fn malformed_hash_never_matches_and_never_panics() {
    assert!(!verify_password("anything", ""));
    assert!(!verify_password("anything", "not-a-bcrypt-hash"));
}

#[test]
fn store_creates_and_finds_users() {
    let mut store = CredentialStore::new();
    let a = store.create_user("alice", "hash-a").expect("free username");
    let b = store.create_user("bob", "hash-b").expect("free username");
    assert_eq!(a, 0);
    assert_eq!(b, 1);
    assert_eq!(store.users[a].id, 1);
    assert_eq!(store.users[b].id, 2);
    let found = store.find_user_by_username("bob").expect("bob is stored");
    assert_eq!(store.users[found].password_hash, "hash-b");
    assert_eq!(store.find_user_by_username("carol"), None);
}

#[test]
fn store_refuses_duplicate_usernames() {
    let mut store = CredentialStore::new();
    store.create_user("alice", "hash-1").expect("free username");
    assert_eq!(store.create_user("alice", "hash-2"), Err(AuthError::Conflict));
    // the first record is untouched
    let i = store.find_user_by_username("alice").unwrap();
    assert_eq!(store.users[i].password_hash, "hash-1");
    assert_eq!(store.users.len(), 1);
}

fn key_user(id: i32, key: &str, level: i32) -> models::User {
    models::User {
        id,
        email: format!("user{}@example.com", id),
        api_key: key.to_string(),
        privilege_level: level,
    }
}

#[test]
fn directory_finds_users_by_api_key() {
    let mut dir = ApiKeyDirectory::new();
    dir.add_user(key_user(1, "key-one", 1)).expect("fresh key");
    dir.add_user(key_user(2, "key-two", 2)).expect("fresh key");
    let i = dir.find_user_by_api_key("key-two").expect("stored");
    assert_eq!(dir.users[i].id, 2);
    assert_eq!(dir.find_user_by_api_key("key-three"), None);
    assert_eq!(
        dir.add_user(key_user(3, "key-one", 0)),
        Err(AuthError::Conflict)
    );
}

#[test]
fn password_round_trip_reports_acceptance() {
    assert_eq!(password_round_trip("any password at all"), Ok(true));
    assert_eq!(password_round_trip(""), Ok(true));
}
