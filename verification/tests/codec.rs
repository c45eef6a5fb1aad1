use rusty_api::b64::{b64_decode, b64_encode};
use rusty_api::claims::{claims_to_json, parse_claims, Claims};
use rusty_api::digits::{parse_dec_range, push_dec_u64};

#[test]
fn b64_known_vectors() {
    // RFC 4648 test vectors, URL-safe alphabet, no padding
    let cases: Vec<(&[u8], &[u8])> = vec![
        (b"", b""),
        (b"f", b"Zg"),
        (b"fo", b"Zm8"),
        (b"foo", b"Zm9v"),
        (b"foob", b"Zm9vYg"),
        (b"fooba", b"Zm9vYmE"),
        (b"foobar", b"Zm9vYmFy"),
    ];
    for (plain, encoded) in cases {
        let out = b64_encode(&plain.to_vec());
        assert_eq!(out, encoded.to_vec());
        assert_eq!(b64_decode(&out), Some(plain.to_vec()));
    }
}

#[test]
fn b64_uses_url_safe_alphabet() {
    // 0xfb 0xff encodes to "-_8" with the URL-safe alphabet
    let out = b64_encode(&vec![0xfbu8, 0xff]);
    assert_eq!(out, b"-_8".to_vec());
    assert_eq!(b64_decode(&out), Some(vec![0xfbu8, 0xff]));
}

#[test]
fn b64_decode_rejects_bad_input() {
    // length 1 mod 4 is never a canonical encoding
    assert_eq!(b64_decode(&b"A".to_vec()), None);
    assert_eq!(b64_decode(&b"AAAAA".to_vec()), None);
    // bytes outside the alphabet
    assert_eq!(b64_decode(&b"Zg==".to_vec()), None);
    assert_eq!(b64_decode(&b"Zm9v.A".to_vec()), None);
    // non-zero trailing bits make an encoding non-canonical
    assert_eq!(b64_decode(&b"Zh".to_vec()), None);
    assert_eq!(b64_decode(&b"Zm9".to_vec()), None);
}

#[test]
fn decimal_print_and_parse() {
    let mut out: Vec<u8> = Vec::new();
    push_dec_u64(&mut out, 0);
    assert_eq!(out, b"0".to_vec());
    let mut out: Vec<u8> = Vec::new();
    push_dec_u64(&mut out, 1048576);
    assert_eq!(out, b"1048576".to_vec());
    let mut out: Vec<u8> = Vec::new();
    push_dec_u64(&mut out, u64::MAX);
    assert_eq!(out, b"18446744073709551615".to_vec());
    assert_eq!(parse_dec_range(&out, 0, out.len()), Some(u64::MAX));
    // one past u64::MAX overflows
    let over = b"18446744073709551616".to_vec();
    assert_eq!(parse_dec_range(&over, 0, over.len()), None);
    let digits = b"00451".to_vec();
    assert_eq!(parse_dec_range(&digits, 2, 5), Some(451));
}

#[test]
fn claims_json_round_trip() {
    let c = Claims { sub: 42, exp: 1700000000 };
    let json = claims_to_json(&c);
    assert_eq!(json, b"{\"sub\":42,\"exp\":1700000000}".to_vec());
    assert_eq!(parse_claims(&json), Some(c));
}

#[test]
fn claims_json_negative_subject() {
    let c = Claims { sub: -7, exp: 0 };
    let json = claims_to_json(&c);
    assert_eq!(json, b"{\"sub\":-7,\"exp\":0}".to_vec());
    assert_eq!(parse_claims(&json), Some(c));
    let c = Claims { sub: i32::MIN, exp: u64::MAX };
    assert_eq!(parse_claims(&claims_to_json(&c)), Some(c));
}

#[test]
fn claims_parser_is_strict() {
    // leading zeros, a lone minus, wrong keys, trailing bytes: all refused
    assert_eq!(parse_claims(&b"{\"sub\":01,\"exp\":2}".to_vec()), None);
    assert_eq!(parse_claims(&b"{\"sub\":-0,\"exp\":2}".to_vec()), None);
    assert_eq!(parse_claims(&b"{\"sub\":-,\"exp\":2}".to_vec()), None);
    assert_eq!(parse_claims(&b"{\"sub\":1,\"exp\":02}".to_vec()), None);
    assert_eq!(parse_claims(&b"{\"exp\":2,\"sub\":1}".to_vec()), None);
    assert_eq!(parse_claims(&b"{\"sub\":1,\"exp\":2} ".to_vec()), None);
    assert_eq!(parse_claims(&b"{\"sub\":1,\"exp\":2".to_vec()), None);
    assert_eq!(parse_claims(&b"".to_vec()), None);
    // subject beyond i32, expiry beyond u64: refused
    assert_eq!(parse_claims(&b"{\"sub\":2147483648,\"exp\":2}".to_vec()), None);
    assert_eq!(
        parse_claims(&b"{\"sub\":-2147483648,\"exp\":2}".to_vec()),
        Some(Claims { sub: i32::MIN, exp: 2 })
    );
    assert_eq!(
        parse_claims(&b"{\"sub\":1,\"exp\":18446744073709551616}".to_vec()),
        None
    );
}
