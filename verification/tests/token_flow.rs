use serde::ser::SerializeStruct;

use rusty_api::claims::Claims;
use rusty_api::errors::AuthError;
use rusty_api::token::{current_unix_time, generate_jwt, validate_token, TOKEN_VALIDITY_SECS};
use rusty_api::user::User;

const SECRET: &[u8] = b"test-signing-SECRET-REDACTED";

fn sample_user(id: i32) -> User {
    User {
        id,
        username: "alice".to_string(),
        password_hash: "irrelevant-here".to_string(),
    }
}

#[test]
fn token_round_trip_before_expiry() {
    let now = 1700000000u64;
    let token = generate_jwt(&sample_user(42), SECRET, now);
    let claims = validate_token(&token, SECRET, now).expect("fresh token verifies");
    assert_eq!(claims, Claims { sub: 42, exp: now + TOKEN_VALIDITY_SECS });
    // still valid one second before expiry
    let late = now + TOKEN_VALIDITY_SECS - 1;
    assert_eq!(validate_token(&token, SECRET, late).unwrap().sub, 42);
}

#[test]
fn token_round_trip_negative_subject() {
    let now = 1700000000u64;
    let token = generate_jwt(&sample_user(-3), SECRET, now);
    assert_eq!(validate_token(&token, SECRET, now).unwrap().sub, -3);
}

#[test]
fn expired_token_is_rejected_as_expired() {
    let now = 1700000000u64;
    let token = generate_jwt(&sample_user(42), SECRET, now);
    // the instant of expiry itself is already too late
    let at_expiry = now + TOKEN_VALIDITY_SECS;
    assert_eq!(
        validate_token(&token, SECRET, at_expiry),
        Err(AuthError::TokenExpired)
    );
    assert_eq!(
        validate_token(&token, SECRET, at_expiry + 86400),
        Err(AuthError::TokenExpired)
    );
}

#[test]
fn tampered_signature_is_rejected_for_every_byte() {
    let now = 1700000000u64;
    let token = generate_jwt(&sample_user(42), SECRET, now);
    let bytes = token.as_bytes().to_vec();
    let sig_start = token.rfind('.').unwrap() + 1;
    for i in sig_start..bytes.len() {
        let mut tampered = bytes.clone();
        // replace the byte with a different alphabet byte
        tampered[i] = if tampered[i] == b'A' { b'B' } else { b'A' };
        let t = String::from_utf8(tampered).unwrap();
        assert_eq!(
            validate_token(&t, SECRET, now),
            Err(AuthError::SignatureInvalid),
            "byte {} of the signature segment",
            i - sig_start
        );
    }
}

#[test]
fn signature_byte_flipped_to_dot_is_malformed() {
    let now = 1700000000u64;
    let token = generate_jwt(&sample_user(42), SECRET, now);
    let mut bytes = token.as_bytes().to_vec();
    let last = bytes.len() - 1;
    bytes[last] = b'.';
    let t = String::from_utf8(bytes).unwrap();
    assert_eq!(validate_token(&t, SECRET, now), Err(AuthError::TokenMalformed));
}

#[test]
fn wrong_secret_is_rejected_as_signature_invalid() {
    let now = 1700000000u64;
    let token = generate_jwt(&sample_user(42), SECRET, now);
    assert_eq!(
        validate_token(&token, b"another-secret", now),
        Err(AuthError::SignatureInvalid)
    );
}

#[test]
fn malformed_tokens_are_rejected_as_malformed() {
    let now = 1700000000u64;
    for bad in [
        "",
        "not-a-token",
        "a.b",
        "a.b.c.d",
        "!!!.???.###",
        "eyJ0eXAiOiJKV1QiLCJhbGciOiJIUzI1NiJ9..sig",
    ] {
        assert_eq!(
            validate_token(bad, SECRET, now),
            Err(AuthError::TokenMalformed),
            "{:?}",
            bad
        );
    }
    // valid structure, tampered claims segment: the signature no longer holds
    let token = generate_jwt(&sample_user(42), SECRET, now);
    let parts: Vec<&str> = token.split('.').collect();
    let other = generate_jwt(&sample_user(43), SECRET, now);
    let other_parts: Vec<&str> = other.split('.').collect();
    let spliced = format!("{}.{}.{}", parts[0], other_parts[1], parts[2]);
    assert_eq!(
        validate_token(&spliced, SECRET, now),
        Err(AuthError::SignatureInvalid)
    );
}

#[test]
fn clock_reads_a_plausible_time() {
    let t = current_unix_time();
    // after 2020-01-01 and clamped below i64::MAX
    assert!(t > 1577836800);
    assert!(t <= i64::MAX as u64);
}

#[test]
fn issued_token_decodes_with_the_jwt_library() {
    let now = current_unix_time();
    let token = generate_jwt(&sample_user(42), SECRET, now);
    let mut validation = jsonwebtoken::Validation::new(jsonwebtoken::Algorithm::HS256);
    validation.leeway = 0;
    let decoded = jsonwebtoken::decode::<serde_json::Value>(
        &token,
        &jsonwebtoken::DecodingKey::from_secret(SECRET),
        &validation,
    )
    .expect("the JWT library accepts the issued token");
    assert_eq!(decoded.claims.get("sub").unwrap().as_i64(), Some(42));
    assert_eq!(
        decoded.claims.get("exp").unwrap().as_u64(),
        Some(now + TOKEN_VALIDITY_SECS)
    );
}

struct RawClaims {
    sub: i64,
    exp: u64,
}

impl serde::Serialize for RawClaims {
    fn serialize<S: serde::Serializer>(&self, s: S) -> Result<S::Ok, S::Error> {
        let mut st = s.serialize_struct("RawClaims", 2)?;
        st.serialize_field("sub", &self.sub)?;
        st.serialize_field("exp", &self.exp)?;
        st.end()
    }
}

#[test]
fn jwt_library_token_passes_validation_here() {
    let now = current_unix_time();
    let exp = now + 3600;
    let token = jsonwebtoken::encode(
        &jsonwebtoken::Header::default(),
        &RawClaims { sub: 7, exp },
        &jsonwebtoken::EncodingKey::from_secret(SECRET),
    )
    .expect("the JWT library signs");
    let validated = validate_token(&token, SECRET, now).expect("token verifies here");
    assert_eq!(validated, Claims { sub: 7, exp });
}
