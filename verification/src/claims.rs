//! The claims of an identity token — subject and expiry — and their exact
//! JSON form: `{"sub":<int>,"exp":<int>}` with canonical decimal numbers.
//! The reader accepts exactly what the writer produces.

use vstd::prelude::*;
use crate::digits::{
    is_digit, dec_digits, dec_val, lemma_dec_val_nonneg, lemma_dec_digits_value, push_dec_u64,
    parse_dec_range,
};

verus! {

/// What a signed identity token asserts: a subject and an expiry instant
/// (seconds since the Unix epoch). Validity is fully determined by the
/// token's signature and this expiry, never by a store lookup.
#[derive(Clone, Copy, Debug, PartialEq, Eq, Structural)]
pub struct Claims {
    /// The authenticated user's id.
    pub sub: i32,
    /// Expiry instant; the token is valid strictly before it.
    pub exp: u64,
}

/// The seven bytes of `{"sub":`.
pub open spec fn sub_prefix() -> Seq<u8> {
    seq![123u8, 34u8, 115u8, 117u8, 98u8, 34u8, 58u8]
}

/// The seven bytes of `,"exp":`.
pub open spec fn exp_mid() -> Seq<u8> {
    seq![44u8, 34u8, 101u8, 120u8, 112u8, 34u8, 58u8]
}

/// Canonical decimal form of a possibly negative number.
pub open spec fn int_digits(v: int) -> Seq<u8> {
    if v < 0 {
        seq![45u8] + dec_digits((-v) as nat)
    } else {
        dec_digits(v as nat)
    }
}

/// The canonical claims document.
pub open spec fn claims_json(sub: int, exp: nat) -> Seq<u8> {
    sub_prefix() + int_digits(sub) + exp_mid() + dec_digits(exp) + seq![125u8]
}

/// End of the digit run that starts at `i`.
pub open spec fn scan_digits(s: Seq<u8>, i: int) -> int
    recommends
        0 <= i <= s.len(),
    decreases s.len() - i,
{
    if i < s.len() && is_digit(s[i]) {
        scan_digits(s, i + 1)
    } else {
        i
    }
}

/// The digit run ends exactly at the first non-digit (or the end).
pub proof fn lemma_scan_digits_determined(s: Seq<u8>, i: int, k: int)
    requires
        0 <= i <= k <= s.len(),
        forall|j: int| i <= j < k ==> is_digit(#[trigger] s[j]),
        k == s.len() || !is_digit(s[k]),
    ensures
        scan_digits(s, i) == k,
    decreases k - i,
{
    if i < k {
        lemma_scan_digits_determined(s, i + 1, k);
    }
}

/// Where the digit run ends: bounds, digits inside, a non-digit after.
pub proof fn lemma_scan_digits(s: Seq<u8>, i: int)
    requires
        0 <= i <= s.len(),
    ensures
        i <= scan_digits(s, i) <= s.len(),
        forall|j: int| i <= j < scan_digits(s, i) ==> is_digit(#[trigger] s[j]),
        scan_digits(s, i) < s.len() ==> !is_digit(s[scan_digits(s, i)]),
    decreases s.len() - i,
{
    if i < s.len() && is_digit(s[i]) {
        lemma_scan_digits(s, i + 1);
    }
}

/// The one reading of a claims document, `None` where the bytes are not a
/// canonical document whose numbers fit the claim fields.
pub open spec fn parse_claims_spec(s: Seq<u8>) -> Option<(int, int)> {
    if s.len() < 7 || s.subrange(0, 7) != sub_prefix() {
        None
    } else {
        let neg = 7 < s.len() && s[7] == 45;
        let d0: int = if neg {
            8
        } else {
            7
        };
        let d1 = scan_digits(s, d0);
        if d1 == d0 {
            None
        } else if s[d0] == 48 && (neg || d1 != d0 + 1) {
            None
        } else {
            let mag = dec_val(s.subrange(d0, d1));
            let subv: int = if neg {
                -mag
            } else {
                mag
            };
            if subv < i32::MIN || subv > i32::MAX {
                None
            } else if s.len() - d1 < 7 || s.subrange(d1, d1 + 7) != exp_mid() {
                None
            } else {
                let e0 = d1 + 7;
                let e1 = scan_digits(s, e0);
                if e1 == e0 {
                    None
                } else if s[e0] == 48 && e1 != e0 + 1 {
                    None
                } else {
                    let expv = dec_val(s.subrange(e0, e1));
                    if expv > u64::MAX {
                        None
                    } else if e1 + 1 != s.len() || s[e1] != 125 {
                        None
                    } else {
                        Some((subv, expv))
                    }
                }
            }
        }
    }
}

/// Writes the canonical claims document.
pub fn claims_to_json(c: &Claims) -> (v: Vec<u8>)
    ensures
        v@ == claims_json(c.sub as int, c.exp as nat),
{
    let mut v: Vec<u8> = Vec::new();
    v.push(123);
    v.push(34);
    v.push(115);
    v.push(117);
    v.push(98);
    v.push(34);
    v.push(58);
    proof {
        assert(v@ =~= sub_prefix());
    }
    if c.sub < 0 {
        let mag = (-(c.sub as i64)) as u64;
        v.push(45);
        let ghost v0 = v@;
        push_dec_u64(&mut v, mag);
        proof {
            assert(v@ =~= sub_prefix() + int_digits(c.sub as int));
        }
    } else {
        push_dec_u64(&mut v, c.sub as u64);
        proof {
            assert(v@ =~= sub_prefix() + int_digits(c.sub as int));
        }
    }
    let ghost v1 = v@;
    v.push(44);
    v.push(34);
    v.push(101);
    v.push(120);
    v.push(112);
    v.push(34);
    v.push(58);
    proof {
        assert(v@ =~= v1 + exp_mid());
    }
    let ghost v2 = v@;
    push_dec_u64(&mut v, c.exp);
    let ghost v3 = v@;
    v.push(125);
    proof {
        assert(v@ =~= v3 + seq![125u8]);
        assert(v@ =~= claims_json(c.sub as int, c.exp as nat));
    }
    v
}

/// Tests the seven bytes at the start against `{"sub":`.
fn sub_prefix_matches(v: &Vec<u8>) -> (r: bool)
    requires
        v@.len() >= 7,
    ensures
        r == (v@.subrange(0, 7) == sub_prefix()),
{
    let r = v[0] == 123 && v[1] == 34 && v[2] == 115 && v[3] == 117 && v[4] == 98 && v[5] == 34
        && v[6] == 58;
    proof {
        let pre = v@.subrange(0, 7);
        assert(pre[0] == v@[0] && pre[1] == v@[1] && pre[2] == v@[2] && pre[3] == v@[3] && pre[4]
            == v@[4] && pre[5] == v@[5] && pre[6] == v@[6]);
        if r {
            assert(pre =~= sub_prefix());
        }
    }
    r
}

/// Tests the seven bytes at `at` against `,"exp":`.
fn exp_mid_matches(v: &Vec<u8>, at: usize) -> (r: bool)
    requires
        at + 7 <= v@.len(),
    ensures
        r == (v@.subrange(at as int, at as int + 7) == exp_mid()),
{
    let n = v.len();
    let r = v[at] == 44 && v[at + 1] == 34 && v[at + 2] == 101 && v[at + 3] == 120 && v[at + 4]
        == 112 && v[at + 5] == 34 && v[at + 6] == 58;
    proof {
        let a = at as int;
        let mid = v@.subrange(a, a + 7);
        assert(mid[0] == v@[a] && mid[1] == v@[a + 1] && mid[2] == v@[a + 2] && mid[3] == v@[a + 3]
            && mid[4] == v@[a + 4] && mid[5] == v@[a + 5] && mid[6] == v@[a + 6]);
        if r {
            assert(mid =~= exp_mid());
        }
    }
    r
}

/// End of the digit run that starts at `from`.
fn scan_digits_exec(v: &Vec<u8>, from: usize) -> (r: usize)
    requires
        from <= v@.len(),
    ensures
        r == scan_digits(v@, from as int),
        from <= r <= v@.len(),
{
    let mut i: usize = from;
    while i < v.len() && 48 <= v[i] && v[i] <= 57
        invariant
            from <= i <= v@.len(),
            scan_digits(v@, from as int) == scan_digits(v@, i as int),
        decreases v@.len() - i,
    {
        i = i + 1;
    }
    proof {
        lemma_scan_digits(v@, from as int);
    }
    i
}

/// Reads a claims document; `None` on anything but a canonical document
/// whose numbers fit the claim fields.
pub fn parse_claims(v: &Vec<u8>) -> (r: Option<Claims>)
    ensures
        match r {
            Some(c) => parse_claims_spec(v@) == Some((c.sub as int, c.exp as int)),
            None => parse_claims_spec(v@) is None,
        },
{
    let n = v.len();
    if n < 7 {
        return None;
    }
    if !sub_prefix_matches(v) {
        return None;
    }
    let neg = n > 7 && v[7] == 45;
    let d0: usize = if neg {
        8
    } else {
        7
    };
    let d1 = scan_digits_exec(v, d0);
    proof {
        lemma_scan_digits(v@, d0 as int);
    }
    if d1 == d0 {
        return None;
    }
    if v[d0] == 48 && (neg || d1 != d0 + 1) {
        return None;
    }
    let mag = match parse_dec_range(v, d0, d1) {
        Some(m) => m,
        None => {
            return None;
        },
    };
    if neg {
        if mag > 2147483648 {
            return None;
        }
    } else if mag > 2147483647 {
        return None;
    }
    let subv: i32 = if neg {
        (-(mag as i64)) as i32
    } else {
        mag as i32
    };
    if n - d1 < 7 {
        return None;
    }
    if !exp_mid_matches(v, d1) {
        return None;
    }
    let e0 = d1 + 7;
    let e1 = scan_digits_exec(v, e0);
    proof {
        lemma_scan_digits(v@, e0 as int);
    }
    if e1 == e0 {
        return None;
    }
    if v[e0] == 48 && e1 != e0 + 1 {
        return None;
    }
    let expv = match parse_dec_range(v, e0, e1) {
        Some(x) => x,
        None => {
            return None;
        },
    };
    if !(e1 == n - 1 && v[e1] == 125) {
        return None;
    }
    Some(Claims { sub: subv, exp: expv })
}

/// Reading a written claims document restores the subject and the expiry.
pub proof fn lemma_claims_roundtrip(sub: int, exp: nat)
    requires
        i32::MIN <= sub <= i32::MAX,
        exp <= u64::MAX,
    ensures
        parse_claims_spec(claims_json(sub, exp)) == Some((sub, exp as int)),
{
    let s = claims_json(sub, exp);
    let mag: nat = if sub < 0 {
        (-sub) as nat
    } else {
        sub as nat
    };
    let d = int_digits(sub);
    let e = dec_digits(exp);
    lemma_dec_digits_value(mag);
    lemma_dec_digits_value(exp);
    let d0: int = if sub < 0 {
        8
    } else {
        7
    };
    let d1 = 7 + d.len() as int;
    let e0 = d1 + 7;
    let e1 = e0 + e.len() as int;
    assert(s.len() == e1 + 1);
    assert(s.subrange(0, 7) =~= sub_prefix());
    // the sign byte and the digit runs sit where the reader looks
    if sub < 0 {
        assert(d[0] == 45);
        assert(s[7] == 45);
    } else {
        assert(s[7] == dec_digits(mag)[0]);
        assert(is_digit(s[7]));
        assert(s[7] != 45);
    }
    assert(s.subrange(d0, d1) =~= dec_digits(mag));
    assert forall|j: int| d0 <= j < d1 implies is_digit(s[j]) by {
        assert(s[j] == dec_digits(mag)[j - d0]);
    }
    assert(s[d1] == 44);
    lemma_scan_digits_determined(s, d0, d1);
    assert(s[d0] == dec_digits(mag)[0]);
    if sub >= 0 && sub != 0 {
        assert(s[d0] != 48);
    }
    if sub < 0 {
        assert(mag > 0);
        assert(s[d0] != 48);
    }
    lemma_dec_val_nonneg(dec_digits(mag));
    assert(dec_val(s.subrange(d0, d1)) == mag);
    assert(s.subrange(d1, d1 + 7) =~= exp_mid());
    assert(s.subrange(e0, e1) =~= dec_digits(exp));
    assert forall|j: int| e0 <= j < e1 implies is_digit(s[j]) by {
        assert(s[j] == dec_digits(exp)[j - e0]);
    }
    assert(s[e1] == 125);
    lemma_scan_digits_determined(s, e0, e1);
    assert(s[e0] == dec_digits(exp)[0]);
    if exp == 0 {
        assert(e.len() == 1);
    } else {
        assert(s[e0] != 48);
    }
    assert(dec_val(s.subrange(e0, e1)) == exp);
    assert(parse_claims_spec(s) == Some((sub, exp as int)));
}

} // verus!
