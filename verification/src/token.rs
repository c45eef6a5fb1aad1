//! Signed, time-bounded identity tokens: `header.claims.signature`, the
//! segments URL-safe base64 without padding, the signature an HMAC-SHA256 of
//! the first two segments under a process-wide secret. Validity is fully
//! determined by signature and expiry, not by a store lookup.

use vstd::prelude::*;
use vstd::utf8::encode_utf8;
use vstd::string::StrSliceExecFns;
use crate::b64::{
    b64_encode_seq, b64_encode, b64_decode_seq, b64_decode, is_b64_byte,
    lemma_encode_alphabet, lemma_b64_roundtrip,
};
use crate::claims::{Claims, claims_json, parse_claims_spec, claims_to_json, parse_claims,
    lemma_claims_roundtrip};
use crate::errors::AuthError;
use crate::user::User;

verus! {

/// How long an issued token stays valid: seven days, in seconds.
pub const TOKEN_VALIDITY_SECS: u64 = 604800;

/// The HMAC-SHA256 signature of a message under a key, as the URL-safe
/// base64 bytes that stand in a token. A fixed function of message and key
/// alone; nothing here states its value.
pub uninterp spec fn hs256_sig(message: Seq<u8>, key: Seq<u8>) -> Seq<u8>;

/// Relies on jsonwebtoken's `crypto::sign` with an HMAC secret key and
/// `Algorithm::HS256`, through the crate's RustCrypto provider: it returns
/// the URL-safe unpadded base64 of the HMAC-SHA256 of the message under the
/// key — a deterministic function of message and key whose bytes all lie in
/// the base64 alphabet. For an HMAC key the signer accepts any key length,
/// so the call cannot fail.
#[verifier::external_body]
fn sign_hs256(message: &Vec<u8>, key: &[u8]) -> (r: Vec<u8>)
    ensures
        r@ == hs256_sig(message@, key@),
        forall|j: int| 0 <= j < r@.len() ==> is_b64_byte(#[trigger] r@[j]),
{
    let enc_key = jsonwebtoken::EncodingKey::from_secret(key);
    jsonwebtoken::crypto::sign(message.as_slice(), &enc_key, jsonwebtoken::Algorithm::HS256)
        .expect("HMAC signing accepts any key and message")
        .into_bytes()
}

/// Relies on `String::from_utf8` on ASCII bytes: the string holds exactly
/// the given bytes, one character per byte. Never fails on ASCII input.
#[verifier::external_body]
fn string_from_ascii(v: Vec<u8>) -> (r: String)
    requires
        forall|j: int| 0 <= j < v@.len() ==> v@[j] < 128,
    ensures
        r@ == v@.map_values(|b: u8| b as char),
        encode_utf8(r@) == v@,
{
    String::from_utf8(v).expect("ASCII bytes are valid UTF-8")
}

/// Relies on chrono's `Utc::now`: seconds since the Unix epoch, as the
/// machine clock gives them. Nothing is promised of the value.
#[verifier::external_body]
fn unix_now() -> (t: i64) {
    chrono::Utc::now().timestamp()
}

/// Seconds since the Unix epoch, clamped below at zero.
pub fn current_unix_time() -> (t: u64)
    ensures
        t <= i64::MAX,
{
    let raw = unix_now();
    if raw < 0 {
        0
    } else {
        raw as u64
    }
}

/// The bytes of `{"typ":"JWT","alg":"HS256"}`.
pub open spec fn header_json() -> Seq<u8> {
    seq![
        123u8, 34u8, 116u8, 121u8, 112u8, 34u8, 58u8, 34u8, 74u8, 87u8, 84u8, 34u8, 44u8, 34u8,
        97u8, 108u8, 103u8, 34u8, 58u8, 34u8, 72u8, 83u8, 50u8, 53u8, 54u8, 34u8, 125u8,
    ]
}

/// The constant first segment of every token.
pub open spec fn header_b64() -> Seq<u8> {
    b64_encode_seq(header_json())
}

/// Writes the header document.
fn header_json_bytes() -> (v: Vec<u8>)
    ensures
        v@ == header_json(),
{
    let mut v: Vec<u8> = Vec::new();
    v.push(123);
    v.push(34);
    v.push(116);
    v.push(121);
    v.push(112);
    v.push(34);
    v.push(58);
    v.push(34);
    v.push(74);
    v.push(87);
    v.push(84);
    v.push(34);
    v.push(44);
    v.push(34);
    v.push(97);
    v.push(108);
    v.push(103);
    v.push(34);
    v.push(58);
    v.push(34);
    v.push(72);
    v.push(83);
    v.push(50);
    v.push(53);
    v.push(54);
    v.push(34);
    v.push(125);
    proof {
        assert(v@ =~= header_json());
    }
    v
}

/// What gets signed: the first two segments joined by a dot.
pub open spec fn signing_input(sub: int, exp: nat) -> Seq<u8> {
    header_b64() + seq![46u8] + b64_encode_seq(claims_json(sub, exp))
}

/// The full token issued for a subject and an expiry under a key.
pub open spec fn token_bytes(sub: int, exp: nat, key: Seq<u8>) -> Seq<u8> {
    signing_input(sub, exp) + seq![46u8] + hs256_sig(signing_input(sub, exp), key)
}

/// The signature bytes of a token for these claims lie in the base64
/// alphabet: what the signing primitive guarantees of every signature.
pub open spec fn sig_in_alphabet(sub: int, exp: nat, key: Seq<u8>) -> bool {
    forall|j: int|
        0 <= j < hs256_sig(signing_input(sub, exp), key).len() ==> is_b64_byte(
            #[trigger] hs256_sig(signing_input(sub, exp), key)[j],
        )
}

/// First position of `b` in `s` at or after `i`; the length if absent.
pub open spec fn find_byte(s: Seq<u8>, i: int, b: u8) -> int
    recommends
        0 <= i,
    decreases s.len() - i,
{
    if i < s.len() {
        if s[i] == b {
            i
        } else {
            find_byte(s, i + 1, b)
        }
    } else {
        s.len() as int
    }
}

/// The first occurrence is exactly after a run that is free of the byte.
pub proof fn lemma_find_byte_determined(s: Seq<u8>, i: int, k: int, b: u8)
    requires
        0 <= i <= k <= s.len(),
        forall|j: int| i <= j < k ==> s[j] != b,
        k == s.len() || s[k] == b,
    ensures
        find_byte(s, i, b) == k,
    decreases k - i,
{
    if i < k {
        lemma_find_byte_determined(s, i + 1, k, b);
    }
}

/// The one verdict on a presented token: the claims it carries, or why it is
/// refused. Structure is checked first, then the signature, then the expiry,
/// and the three refusals are distinct kinds.
pub open spec fn token_verdict(t: Seq<u8>, key: Seq<u8>, now: nat) -> Result<(int, int), AuthError> {
    let p1 = find_byte(t, 0, 46);
    let p2 = find_byte(t, p1 + 1, 46);
    let p3 = find_byte(t, p2 + 1, 46);
    if p1 == t.len() || p2 == t.len() || p3 != t.len() {
        Err(AuthError::TokenMalformed)
    } else if t.subrange(0, p1) != header_b64() {
        Err(AuthError::TokenMalformed)
    } else {
        match b64_decode_seq(t.subrange(p1 + 1, p2)) {
            None => Err(AuthError::TokenMalformed),
            Some(cl) => match parse_claims_spec(cl) {
                None => Err(AuthError::TokenMalformed),
                Some((sub, exp)) => {
                    if t.subrange(p2 + 1, t.len() as int) != hs256_sig(t.subrange(0, p2), key) {
                        Err(AuthError::SignatureInvalid)
                    } else if exp <= now {
                        Err(AuthError::TokenExpired)
                    } else {
                        Ok((sub, exp))
                    }
                },
            },
        }
    }
}

/// First position of `b` in `v` at or after `from`; the length if absent.
fn find_byte_exec(v: &Vec<u8>, from: usize, b: u8) -> (r: usize)
    requires
        from <= v@.len(),
    ensures
        r == find_byte(v@, from as int, b),
        from <= r <= v@.len(),
        r < v@.len() ==> v@[r as int] == b,
{
    let mut i: usize = from;
    while i < v.len() && v[i] != b
        invariant
            from <= i <= v@.len(),
            find_byte(v@, from as int, b) == find_byte(v@, i as int, b),
        decreases v@.len() - i,
    {
        i = i + 1;
    }
    i
}

/// Copies `v[from..to]`.
fn vec_range(v: &Vec<u8>, from: usize, to: usize) -> (out: Vec<u8>)
    requires
        from <= to <= v@.len(),
    ensures
        out@ == v@.subrange(from as int, to as int),
{
    let mut out: Vec<u8> = Vec::new();
    let mut i: usize = from;
    while i < to
        invariant
            from <= i <= to <= v@.len(),
            out@ == v@.subrange(from as int, i as int),
        decreases to - i,
    {
        out.push(v[i]);
        proof {
            assert(out@ =~= v@.subrange(from as int, i as int + 1));
        }
        i = i + 1;
    }
    out
}

/// Whether two byte vectors hold the same bytes.
fn vec_eq(a: &Vec<u8>, b: &Vec<u8>) -> (r: bool)
    ensures
        r == (a@ == b@),
{
    if a.len() != b.len() {
        proof {
            assert(a@ != b@) by {
                if a@ == b@ {
                    assert(a@.len() == b@.len());
                }
            }
        }
        return false;
    }
    let mut i: usize = 0;
    while i < a.len()
        invariant
            i <= a@.len(),
            a@.len() == b@.len(),
            forall|j: int| 0 <= j < i ==> a@[j] == b@[j],
        decreases a@.len() - i,
    {
        if a[i] != b[i] {
            return false;
        }
        i = i + 1;
    }
    proof {
        assert(a@ =~= b@);
    }
    true
}

/// Issues a token for the user: subject is the user's id, expiry is `now`
/// plus the validity window, signed under the secret.
pub fn generate_jwt(user: &User, secret: &[u8], now: u64) -> (t: String)
    requires
        now <= u64::MAX - TOKEN_VALIDITY_SECS,
    ensures
        encode_utf8(t@) == token_bytes(
            user.id as int,
            (now + TOKEN_VALIDITY_SECS) as nat,
            secret@,
        ),
        t@ == token_bytes(user.id as int, (now + TOKEN_VALIDITY_SECS) as nat, secret@).map_values(
            |b: u8| b as char,
        ),
        sig_in_alphabet(user.id as int, (now + TOKEN_VALIDITY_SECS) as nat, secret@),
{
    let ghost sub = user.id as int;
    let ghost exp = (now + TOKEN_VALIDITY_SECS) as nat;
    let c = Claims { sub: user.id, exp: now + TOKEN_VALIDITY_SECS };
    let json = claims_to_json(&c);
    let mut claims_seg = b64_encode(&json);
    let hdr = header_json_bytes();
    let mut tok = b64_encode(&hdr);
    tok.push(46);
    proof {
        assert(tok@ =~= header_b64() + seq![46u8]);
    }
    tok.append(&mut claims_seg);
    proof {
        assert(tok@ =~= signing_input(sub, exp));
    }
    let mut sig = sign_hs256(&tok, secret);
    tok.push(46);
    let ghost tok_mid = tok@;
    tok.append(&mut sig);
    proof {
        assert(tok_mid =~= signing_input(sub, exp) + seq![46u8]);
        assert(tok@ =~= token_bytes(sub, exp, secret@));
        lemma_encode_alphabet(header_json(), 0);
        lemma_encode_alphabet(claims_json(sub, exp), 0);
        assert forall|j: int| 0 <= j < tok@.len() implies tok@[j] < 128 by {
            let si = signing_input(sub, exp);
            if j < si.len() {
                assert(tok@[j] == si[j]);
                if j < header_b64().len() {
                    assert(si[j] == header_b64()[j]);
                    assert(is_b64_byte(si[j]));
                } else if j == header_b64().len() {
                    assert(si[j] == 46);
                } else {
                    assert(si[j] == b64_encode_seq(claims_json(sub, exp))[j - header_b64().len()
                        - 1]);
                    assert(is_b64_byte(si[j]));
                }
            } else if j == si.len() {
                assert(tok@[j] == 46);
            } else {
                assert(tok@[j] == hs256_sig(si, secret@)[j - si.len() - 1]);
                assert(is_b64_byte(tok@[j]));
            }
        }
    }
    string_from_ascii(tok)
}

/// The verdict on a freshly issued token is decided by the expiry alone.
/// The last premise restates what the signing wrapper ensures: signature
/// bytes lie in the base64 alphabet.
proof fn lemma_valid_token_verdict(sub: int, exp: nat, key: Seq<u8>, now: nat)
    requires
        i32::MIN <= sub <= i32::MAX,
        exp <= u64::MAX,
        sig_in_alphabet(sub, exp, key),
    ensures
        token_verdict(token_bytes(sub, exp, key), key, now) == if exp <= now {
            Err::<(int, int), AuthError>(AuthError::TokenExpired)
        } else {
            Ok::<(int, int), AuthError>((sub, exp as int))
        },
{
    let h = header_b64();
    let cj = claims_json(sub, exp);
    let cseg = b64_encode_seq(cj);
    let si = signing_input(sub, exp);
    let g = hs256_sig(si, key);
    let t = token_bytes(sub, exp, key);
    lemma_encode_alphabet(header_json(), 0);
    lemma_encode_alphabet(cj, 0);
    let p1 = h.len() as int;
    let p2 = p1 + 1 + cseg.len() as int;
    assert(p2 == si.len());
    assert(t.len() == p2 + 1 + g.len());
    assert forall|j: int| 0 <= j < p1 implies t[j] != 46 by {
        assert(t[j] == h[j]);
        assert(is_b64_byte(h[j]));
    }
    assert(t[p1] == 46);
    lemma_find_byte_determined(t, 0, p1, 46);
    assert forall|j: int| p1 + 1 <= j < p2 implies t[j] != 46 by {
        assert(t[j] == cseg[j - p1 - 1]);
        assert(is_b64_byte(cseg[j - p1 - 1]));
    }
    assert(t[p2] == 46);
    lemma_find_byte_determined(t, p1 + 1, p2, 46);
    assert forall|j: int| p2 + 1 <= j < t.len() implies t[j] != 46 by {
        assert(t[j] == g[j - p2 - 1]);
        assert(is_b64_byte(g[j - p2 - 1]));
    }
    lemma_find_byte_determined(t, p2 + 1, t.len() as int, 46);
    assert(t.subrange(0, p1) =~= h);
    assert(t.subrange(p1 + 1, p2) =~= cseg);
    lemma_b64_roundtrip(cj);
    lemma_claims_roundtrip(sub, exp);
    assert(t.subrange(0, p2) =~= si);
    assert(t.subrange(p2 + 1, t.len() as int) =~= g);
}

/// Round trip: a token issued for a subject verifies, while its expiry lies
/// in the future, to exactly that subject and that expiry. The last premise
/// restates what the signing wrapper ensures of every signature.
pub proof fn lemma_token_roundtrip(sub: int, exp: nat, key: Seq<u8>, now: nat)
    requires
        i32::MIN <= sub <= i32::MAX,
        exp <= u64::MAX,
        now < exp,
        sig_in_alphabet(sub, exp, key),
    ensures
        token_verdict(token_bytes(sub, exp, key), key, now) == Ok::<(int, int), AuthError>(
            (sub, exp as int),
        ),
{
    lemma_valid_token_verdict(sub, exp, key, now);
}

/// A correctly signed token whose expiry is not in the future is refused as
/// expired — a valid signature does not save it. The last premise restates
/// what the signing wrapper ensures of every signature.
pub proof fn lemma_expired_token_rejected(sub: int, exp: nat, key: Seq<u8>, now: nat)
    requires
        i32::MIN <= sub <= i32::MAX,
        exp <= u64::MAX,
        exp <= now,
        sig_in_alphabet(sub, exp, key),
    ensures
        token_verdict(token_bytes(sub, exp, key), key, now) == Err::<(int, int), AuthError>(
            AuthError::TokenExpired,
        ),
{
    lemma_valid_token_verdict(sub, exp, key, now);
}

/// Changing any byte of a valid token's signature segment is caught: to a
/// non-dot byte the verdict is `SignatureInvalid`, to a dot the token no
/// longer parses; it never verifies successfully. The last premise restates
/// what the signing wrapper ensures of every signature.
pub proof fn lemma_tampered_signature_rejected(
    sub: int,
    exp: nat,
    key: Seq<u8>,
    now: nat,
    k: int,
    b: u8,
)
    requires
        i32::MIN <= sub <= i32::MAX,
        exp <= u64::MAX,
        signing_input(sub, exp).len() + 1 <= k < token_bytes(sub, exp, key).len(),
        b != token_bytes(sub, exp, key)[k],
        sig_in_alphabet(sub, exp, key),
    ensures
        b != 46 ==> token_verdict(token_bytes(sub, exp, key).update(k, b), key, now) == Err::<
            (int, int),
            AuthError,
        >(AuthError::SignatureInvalid),
        b == 46 ==> token_verdict(token_bytes(sub, exp, key).update(k, b), key, now) == Err::<
            (int, int),
            AuthError,
        >(AuthError::TokenMalformed),
{
    let h = header_b64();
    let cj = claims_json(sub, exp);
    let cseg = b64_encode_seq(cj);
    let si = signing_input(sub, exp);
    let g = hs256_sig(si, key);
    let t = token_bytes(sub, exp, key);
    let t2 = t.update(k, b);
    lemma_encode_alphabet(header_json(), 0);
    lemma_encode_alphabet(cj, 0);
    let p1 = h.len() as int;
    let p2 = p1 + 1 + cseg.len() as int;
    assert(p2 == si.len());
    assert(t.len() == p2 + 1 + g.len());
    assert(t2.len() == t.len());
    assert forall|j: int| 0 <= j < p1 implies t2[j] != 46 by {
        assert(t2[j] == t[j] && t[j] == h[j]);
        assert(is_b64_byte(h[j]));
    }
    assert(t2[p1] == 46);
    lemma_find_byte_determined(t2, 0, p1, 46);
    assert forall|j: int| p1 + 1 <= j < p2 implies t2[j] != 46 by {
        assert(t2[j] == t[j] && t[j] == cseg[j - p1 - 1]);
        assert(is_b64_byte(cseg[j - p1 - 1]));
    }
    assert(t2[p2] == 46);
    lemma_find_byte_determined(t2, p1 + 1, p2, 46);
    assert(t2.subrange(0, p1) =~= h);
    assert(t2.subrange(p1 + 1, p2) =~= cseg);
    lemma_b64_roundtrip(cj);
    lemma_claims_roundtrip(sub, exp);
    assert(t2.subrange(0, p2) =~= si);
    if b != 46 {
        assert forall|j: int| p2 + 1 <= j < t2.len() implies t2[j] != 46 by {
            if j != k {
                assert(t2[j] == t[j] && t[j] == g[j - p2 - 1]);
                assert(is_b64_byte(g[j - p2 - 1]));
            }
        }
        lemma_find_byte_determined(t2, p2 + 1, t2.len() as int, 46);
        let sig2 = t2.subrange(p2 + 1, t2.len() as int);
        assert(sig2[k - p2 - 1] == b);
        assert(g[k - p2 - 1] == t[k]);
        assert(sig2 != hs256_sig(si, key)) by {
            if sig2 == g {
                assert(sig2[k - p2 - 1] == g[k - p2 - 1]);
            }
        }
    } else {
        assert forall|j: int| p2 + 1 <= j < k implies t2[j] != 46 by {
            assert(t2[j] == t[j] && t[j] == g[j - p2 - 1]);
            assert(is_b64_byte(g[j - p2 - 1]));
        }
        assert(t2[k] == 46);
        lemma_find_byte_determined(t2, p2 + 1, k, 46);
    }
}

/// Checks a presented token: decodes it, checks the signature, checks the
/// expiry, and returns the claims or the distinct refusal. Never conflates a
/// refusal with "no token supplied", which is the caller's case.
pub fn validate_token(token: &str, secret: &[u8], now: u64) -> (r: Result<Claims, AuthError>)
    ensures
        match r {
            Ok(c) => token_verdict(encode_utf8(token@), secret@, now as nat) == Ok::<(int, int),
                AuthError,
            >((c.sub as int, c.exp as int)),
            Err(e) => token_verdict(encode_utf8(token@), secret@, now as nat) == Err::<(int, int),
                AuthError,
            >(e),
        },
{
    let t = token.as_bytes_vec();
    let n = t.len();
    let p1 = find_byte_exec(&t, 0, 46);
    if p1 == n {
        return Err(AuthError::TokenMalformed);
    }
    let p2 = find_byte_exec(&t, p1 + 1, 46);
    if p2 == n {
        return Err(AuthError::TokenMalformed);
    }
    let p3 = find_byte_exec(&t, p2 + 1, 46);
    if p3 != n {
        return Err(AuthError::TokenMalformed);
    }
    let hdr_seg = vec_range(&t, 0, p1);
    let hdr = b64_encode(&header_json_bytes());
    if !vec_eq(&hdr_seg, &hdr) {
        return Err(AuthError::TokenMalformed);
    }
    let claims_seg = vec_range(&t, p1 + 1, p2);
    let cl = match b64_decode(&claims_seg) {
        Some(cl) => cl,
        None => {
            return Err(AuthError::TokenMalformed);
        },
    };
    let c = match parse_claims(&cl) {
        Some(c) => c,
        None => {
            return Err(AuthError::TokenMalformed);
        },
    };
    let msg = vec_range(&t, 0, p2);
    let expected = sign_hs256(&msg, secret);
    let sig_seg = vec_range(&t, p2 + 1, n);
    if !vec_eq(&sig_seg, &expected) {
        return Err(AuthError::SignatureInvalid);
    }
    if c.exp <= now {
        return Err(AuthError::TokenExpired);
    }
    Ok(c)
}

} // verus!
