//! URL-safe base64 without padding, over bytes: the segment encoding of the
//! token format. The decoder accepts exactly the canonical encodings that the
//! encoder produces.

use vstd::prelude::*;

verus! {

/// Value of an alphabet byte, or -1 for a byte outside the alphabet.
pub open spec fn b64_val_of(c: u8) -> int {
    if 65 <= c <= 90 {
        c - 65
    } else if 97 <= c <= 122 {
        c - 71
    } else if 48 <= c <= 57 {
        c + 4
    } else if c == 45 {
        62
    } else if c == 95 {
        63
    } else {
        -1
    }
}

/// True of the bytes the URL-safe alphabet uses.
pub open spec fn is_b64_byte(c: u8) -> bool {
    b64_val_of(c) >= 0
}

/// Alphabet byte for a six-bit value.
pub open spec fn b64_char_of(v: int) -> u8
    recommends
        0 <= v < 64,
{
    if v < 26 {
        (65 + v) as u8
    } else if v < 52 {
        (71 + v) as u8
    } else if v < 62 {
        (v - 4) as u8
    } else if v == 62 {
        45u8
    } else {
        95u8
    }
}

/// Encoding of the suffix of `s` that starts at `i`, in groups of three bytes.
pub open spec fn b64_encode_from(s: Seq<u8>, i: int) -> Seq<u8>
    recommends
        0 <= i <= s.len(),
    decreases s.len() - i,
{
    let n = s.len() - i;
    if n <= 0 {
        Seq::<u8>::empty()
    } else if n == 1 {
        let b0 = s[i] as int;
        seq![b64_char_of(b0 / 4), b64_char_of((b0 % 4) * 16)]
    } else if n == 2 {
        let b0 = s[i] as int;
        let b1 = s[i + 1] as int;
        seq![
            b64_char_of(b0 / 4),
            b64_char_of((b0 % 4) * 16 + b1 / 16),
            b64_char_of((b1 % 16) * 4),
        ]
    } else {
        let b0 = s[i] as int;
        let b1 = s[i + 1] as int;
        let b2 = s[i + 2] as int;
        seq![
            b64_char_of(b0 / 4),
            b64_char_of((b0 % 4) * 16 + b1 / 16),
            b64_char_of((b1 % 16) * 4 + b2 / 64),
            b64_char_of(b2 % 64),
        ] + b64_encode_from(s, i + 3)
    }
}

/// Canonical encoding of a whole byte sequence.
pub open spec fn b64_encode_seq(s: Seq<u8>) -> Seq<u8> {
    b64_encode_from(s, 0)
}

/// Decoding of the suffix of `t` that starts at `i`; `None` on any byte
/// outside the alphabet, on a leftover length of one, and on non-zero
/// trailing bits (so only canonical encodings are accepted).
pub open spec fn b64_decode_from(t: Seq<u8>, i: int) -> Option<Seq<u8>>
    recommends
        0 <= i <= t.len(),
    decreases t.len() - i,
{
    let n = t.len() - i;
    if n <= 0 {
        Some(Seq::<u8>::empty())
    } else if n == 1 {
        None
    } else if n == 2 {
        let v0 = b64_val_of(t[i]);
        let v1 = b64_val_of(t[i + 1]);
        if v0 >= 0 && v1 >= 0 && v1 % 16 == 0 {
            Some(seq![(v0 * 4 + v1 / 16) as u8])
        } else {
            None
        }
    } else if n == 3 {
        let v0 = b64_val_of(t[i]);
        let v1 = b64_val_of(t[i + 1]);
        let v2 = b64_val_of(t[i + 2]);
        if v0 >= 0 && v1 >= 0 && v2 >= 0 && v2 % 4 == 0 {
            Some(seq![(v0 * 4 + v1 / 16) as u8, ((v1 % 16) * 16 + v2 / 4) as u8])
        } else {
            None
        }
    } else {
        let v0 = b64_val_of(t[i]);
        let v1 = b64_val_of(t[i + 1]);
        let v2 = b64_val_of(t[i + 2]);
        let v3 = b64_val_of(t[i + 3]);
        if v0 >= 0 && v1 >= 0 && v2 >= 0 && v3 >= 0 {
            match b64_decode_from(t, i + 4) {
                Some(rest) => Some(
                    seq![
                        (v0 * 4 + v1 / 16) as u8,
                        ((v1 % 16) * 16 + v2 / 4) as u8,
                        ((v2 % 4) * 64 + v3) as u8,
                    ] + rest,
                ),
                None => None,
            }
        } else {
            None
        }
    }
}

/// Decoding of a whole byte sequence.
pub open spec fn b64_decode_seq(t: Seq<u8>) -> Option<Seq<u8>> {
    b64_decode_from(t, 0)
}

/// An alphabet byte carries exactly the six-bit value it encodes.
pub proof fn lemma_b64_char_alphabet(v: int)
    requires
        0 <= v < 64,
    ensures
        is_b64_byte(b64_char_of(v)),
        b64_val_of(b64_char_of(v)) == v,
{
}

/// Every byte an encoding produces is an alphabet byte.
pub proof fn lemma_encode_alphabet(s: Seq<u8>, i: int)
    requires
        0 <= i <= s.len(),
    ensures
        forall|j: int|
            0 <= j < b64_encode_from(s, i).len() ==> is_b64_byte(#[trigger] b64_encode_from(s, i)[j]),
    decreases s.len() - i,
{
    let e = b64_encode_from(s, i);
    let n = s.len() - i;
    if n <= 0 {
    } else if n == 1 {
        let b0 = s[i] as int;
        lemma_b64_char_alphabet(b0 / 4);
        lemma_b64_char_alphabet((b0 % 4) * 16);
    } else if n == 2 {
        let b0 = s[i] as int;
        let b1 = s[i + 1] as int;
        lemma_b64_char_alphabet(b0 / 4);
        lemma_b64_char_alphabet((b0 % 4) * 16 + b1 / 16);
        lemma_b64_char_alphabet((b1 % 16) * 4);
    } else {
        lemma_encode_alphabet(s, i + 3);
        let b0 = s[i] as int;
        let b1 = s[i + 1] as int;
        let b2 = s[i + 2] as int;
        lemma_b64_char_alphabet(b0 / 4);
        lemma_b64_char_alphabet((b0 % 4) * 16 + b1 / 16);
        lemma_b64_char_alphabet((b1 % 16) * 4 + b2 / 64);
        lemma_b64_char_alphabet(b2 % 64);
        assert forall|j: int| 0 <= j < e.len() implies is_b64_byte(e[j]) by {
            if j >= 4 {
                assert(e[j] == b64_encode_from(s, i + 3)[j - 4]);
            }
        }
    }
}

/// Decoding looks only at the suffix it is given.
proof fn lemma_decode_shift(t: Seq<u8>, i: int)
    requires
        0 <= i <= t.len(),
    ensures
        b64_decode_from(t, i) == b64_decode_seq(t.skip(i)),
    decreases t.len() - i,
{
    let u = t.skip(i);
    let n = t.len() - i;
    assert(u.len() == n);
    if n >= 4 {
        lemma_decode_shift(t, i + 4);
        lemma_decode_shift(u, 4);
        assert(u.skip(4) =~= t.skip(i + 4));
    }
}

/// Decoding inverts encoding: the decoder recovers exactly the bytes that
/// were encoded.
#[verifier::rlimit(50)]
pub proof fn lemma_b64_roundtrip_from(s: Seq<u8>, i: int)
    requires
        0 <= i <= s.len(),
    ensures
        b64_decode_seq(b64_encode_from(s, i)) == Some(s.skip(i)),
    decreases s.len() - i,
{
    let t = b64_encode_from(s, i);
    let n = s.len() - i;
    if n <= 0 {
        assert(s.skip(i) =~= Seq::<u8>::empty());
    } else if n == 1 {
        assert(s.skip(i) =~= seq![s[i]]);
    } else if n == 2 {
        assert(s.skip(i) =~= seq![s[i], s[i + 1]]);
    } else {
        lemma_b64_roundtrip_from(s, i + 3);
        let rest = b64_encode_from(s, i + 3);
        assert(t.skip(4) =~= rest);
        lemma_decode_shift(t, 4);
        let b0 = s[i] as int;
        let b1 = s[i + 1] as int;
        let b2 = s[i + 2] as int;
        let v1 = (b0 % 4) * 16 + b1 / 16;
        let v2 = (b1 % 16) * 4 + b2 / 64;
        assert(v1 / 16 == b0 % 4 && v1 % 16 == b1 / 16);
        assert(v2 / 4 == b1 % 16 && v2 % 4 == b2 / 64);
        assert(s.skip(i) =~= seq![s[i], s[i + 1], s[i + 2]] + s.skip(i + 3));
    }
}

/// Round trip over a whole sequence.
pub proof fn lemma_b64_roundtrip(s: Seq<u8>)
    ensures
        b64_decode_seq(b64_encode_seq(s)) == Some(s),
{
    lemma_b64_roundtrip_from(s, 0);
    assert(s.skip(0) =~= s);
}

/// Alphabet byte for a six-bit value.
fn b64_char(v: u8) -> (r: u8)
    requires
        v < 64,
    ensures
        r == b64_char_of(v as int),
{
    if v < 26 {
        65 + v
    } else if v < 52 {
        71 + v
    } else if v < 62 {
        v - 4
    } else if v == 62 {
        45
    } else {
        95
    }
}

/// Value of an alphabet byte; 64 marks a byte outside the alphabet.
fn b64_val(c: u8) -> (r: u8)
    ensures
        r < 64 ==> r == b64_val_of(c),
        r == 64 ==> b64_val_of(c) == -1,
        r <= 64,
{
    if 65 <= c && c <= 90 {
        c - 65
    } else if 97 <= c && c <= 122 {
        c - 71
    } else if 48 <= c && c <= 57 {
        c + 4
    } else if c == 45 {
        62
    } else if c == 95 {
        63
    } else {
        64
    }
}

/// Encodes bytes as URL-safe base64 without padding.
pub fn b64_encode(input: &Vec<u8>) -> (out: Vec<u8>)
    ensures
        out@ == b64_encode_seq(input@),
{
    let mut out: Vec<u8> = Vec::new();
    let mut i: usize = 0;
    while i < input.len()
        invariant
            i <= input.len(),
            out@ + b64_encode_from(input@, i as int) == b64_encode_seq(input@),
        decreases input.len() - i,
    {
        let ghost out0 = out@;
        let ghost s = input@;
        let n = input.len() - i;
        let b0 = input[i];
        if n == 1 {
            out.push(b64_char(b0 / 4));
            out.push(b64_char((b0 % 4) * 16));
            proof {
                assert(out@ =~= out0 + b64_encode_from(s, i as int));
                assert(out@ + b64_encode_from(s, i as int + 1) =~= out@);
            }
            i = i + 1;
        } else if n == 2 {
            let b1 = input[i + 1];
            out.push(b64_char(b0 / 4));
            out.push(b64_char((b0 % 4) * 16 + b1 / 16));
            out.push(b64_char((b1 % 16) * 4));
            proof {
                assert(out@ =~= out0 + b64_encode_from(s, i as int));
                assert(out@ + b64_encode_from(s, i as int + 2) =~= out@);
            }
            i = i + 2;
        } else {
            let b1 = input[i + 1];
            let b2 = input[i + 2];
            out.push(b64_char(b0 / 4));
            out.push(b64_char((b0 % 4) * 16 + b1 / 16));
            out.push(b64_char((b1 % 16) * 4 + b2 / 64));
            out.push(b64_char(b2 % 64));
            proof {
                let group = seq![
                    b64_char_of(b0 as int / 4),
                    b64_char_of((b0 as int % 4) * 16 + b1 as int / 16),
                    b64_char_of((b1 as int % 16) * 4 + b2 as int / 64),
                    b64_char_of(b2 as int % 64),
                ];
                assert(out@ =~= out0 + group);
                assert(out0 + (group + b64_encode_from(s, i as int + 3)) =~= (out0 + group)
                    + b64_encode_from(s, i as int + 3));
            }
            i = i + 3;
        }
    }
    out
}

/// What an option holds, with a prefix put in front of it.
spec fn opt_prepend(p: Seq<u8>, o: Option<Seq<u8>>) -> Option<Seq<u8>> {
    match o {
        Some(r) => Some(p + r),
        None => None,
    }
}

/// Decodes URL-safe base64 without padding; `None` on anything but a
/// canonical encoding.
pub fn b64_decode(input: &Vec<u8>) -> (out: Option<Vec<u8>>)
    ensures
        match out {
            Some(v) => b64_decode_seq(input@) == Some(v@),
            None => b64_decode_seq(input@) is None,
        },
{
    let mut out: Vec<u8> = Vec::new();
    let mut i: usize = 0;
    while input.len() - i >= 4
        invariant
            i <= input.len(),
            b64_decode_seq(input@) == opt_prepend(out@, b64_decode_from(input@, i as int)),
        decreases input.len() - i,
    {
        let v0 = b64_val(input[i]);
        let v1 = b64_val(input[i + 1]);
        let v2 = b64_val(input[i + 2]);
        let v3 = b64_val(input[i + 3]);
        if v0 == 64 || v1 == 64 || v2 == 64 || v3 == 64 {
            return None;
        }
        let ghost out0 = out@;
        out.push(v0 * 4 + v1 / 16);
        out.push((v1 % 16) * 16 + v2 / 4);
        out.push((v2 % 4) * 64 + v3);
        proof {
            let s = input@;
            let three = seq![
                (b64_val_of(s[i as int]) * 4 + b64_val_of(s[i as int + 1]) / 16) as u8,
                ((b64_val_of(s[i as int + 1]) % 16) * 16 + b64_val_of(s[i as int + 2]) / 4) as u8,
                ((b64_val_of(s[i as int + 2]) % 4) * 64 + b64_val_of(s[i as int + 3])) as u8,
            ];
            assert(out@ =~= out0 + three);
            match b64_decode_from(s, i as int + 4) {
                Some(rest) => {
                    assert(out0 + (three + rest) =~= out@ + rest);
                },
                None => {},
            }
        }
        i = i + 4;
    }
    let n = input.len() - i;
    if n == 0 {
        proof {
            assert(out@ + Seq::<u8>::empty() =~= out@);
        }
        Some(out)
    } else if n == 2 {
        let v0 = b64_val(input[i]);
        let v1 = b64_val(input[i + 1]);
        if v0 == 64 || v1 == 64 || v1 % 16 != 0 {
            return None;
        }
        let ghost out0 = out@;
        out.push(v0 * 4 + v1 / 16);
        proof {
            let s = input@;
            let one = seq![(b64_val_of(s[i as int]) * 4 + b64_val_of(s[i as int + 1]) / 16) as u8];
            assert(out@ =~= out0 + one);
        }
        Some(out)
    } else if n == 3 {
        let v0 = b64_val(input[i]);
        let v1 = b64_val(input[i + 1]);
        let v2 = b64_val(input[i + 2]);
        if v0 == 64 || v1 == 64 || v2 == 64 || v2 % 4 != 0 {
            return None;
        }
        let ghost out0 = out@;
        out.push(v0 * 4 + v1 / 16);
        out.push((v1 % 16) * 16 + v2 / 4);
        proof {
            let s = input@;
            let two = seq![
                (b64_val_of(s[i as int]) * 4 + b64_val_of(s[i as int + 1]) / 16) as u8,
                ((b64_val_of(s[i as int + 1]) % 16) * 16 + b64_val_of(s[i as int + 2]) / 4) as u8,
            ];
            assert(out@ =~= out0 + two);
        }
        Some(out)
    } else {
        None
    }
}

} // verus!
