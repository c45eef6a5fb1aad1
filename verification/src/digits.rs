//! Decimal digit strings: printing a number canonically (no leading zero)
//! and reading one back, the number layer of the claims encoding.

use vstd::prelude::*;

verus! {

/// True of ASCII decimal digit bytes.
pub open spec fn is_digit(c: u8) -> bool {
    48 <= c <= 57
}

/// Decimal digits of `n`, most significant first, no leading zero.
pub open spec fn dec_digits(n: nat) -> Seq<u8>
    decreases n,
{
    if n < 10 {
        seq![(48 + n) as u8]
    } else {
        dec_digits(n / 10) + seq![(48 + n % 10) as u8]
    }
}

/// Value of a digit string, most significant first.
pub open spec fn dec_val(s: Seq<u8>) -> int
    decreases s.len(),
{
    if s.len() == 0 {
        0
    } else {
        dec_val(s.drop_last()) * 10 + (s.last() - 48)
    }
}

/// A digit string's value is not negative.
pub proof fn lemma_dec_val_nonneg(s: Seq<u8>)
    requires
        forall|j: int| 0 <= j < s.len() ==> is_digit(#[trigger] s[j]),
    ensures
        dec_val(s) >= 0,
    decreases s.len(),
{
    if s.len() > 0 {
        lemma_dec_val_nonneg(s.drop_last());
    }
}

/// Reading a longer digit run never yields a smaller value.
pub proof fn lemma_dec_val_mono(s: Seq<u8>, a: int, b: int, c: int)
    requires
        0 <= a <= b <= c <= s.len(),
        forall|j: int| a <= j < c ==> is_digit(#[trigger] s[j]),
    ensures
        dec_val(s.subrange(a, c)) >= dec_val(s.subrange(a, b)),
    decreases c - b,
{
    if c > b {
        lemma_dec_val_mono(s, a, b, c - 1);
        let p = s.subrange(a, c);
        assert(p.drop_last() =~= s.subrange(a, c - 1));
        assert forall|j: int| 0 <= j < s.subrange(a, c - 1).len() implies is_digit(
            #[trigger] s.subrange(a, c - 1)[j],
        ) by {
            assert(s.subrange(a, c - 1)[j] == s[a + j]);
        }
        lemma_dec_val_nonneg(s.subrange(a, c - 1));
    }
}

/// Printing then reading restores the number, the digits are digits, and the
/// first digit is zero only for zero itself.
pub proof fn lemma_dec_digits_value(n: nat)
    ensures
        dec_val(dec_digits(n)) == n,
        dec_digits(n).len() >= 1,
        forall|j: int| 0 <= j < dec_digits(n).len() ==> is_digit(#[trigger] dec_digits(n)[j]),
        n > 0 ==> dec_digits(n)[0] != 48,
        n == 0 ==> dec_digits(n) =~= seq![48u8],
    decreases n,
{
    if n < 10 {
        let e = dec_digits(n);
        assert(e.drop_last() =~= Seq::<u8>::empty());
        assert(e.last() == (48 + n) as u8);
        assert(dec_val(e) == dec_val(e.drop_last()) * 10 + (e.last() - 48));
        assert(dec_val(e) == n);
    } else {
        lemma_dec_digits_value(n / 10);
        let e = dec_digits(n);
        assert(e.drop_last() =~= dec_digits(n / 10));
        assert(e.last() == (48 + n % 10) as u8);
        assert(dec_val(e) == (n / 10) * 10 + n % 10);
        assert forall|j: int| 0 <= j < e.len() implies is_digit(e[j]) by {
            if j < e.len() - 1 {
                assert(e[j] == dec_digits(n / 10)[j]);
            }
        }
        assert(e[0] == dec_digits(n / 10)[0]);
    }
}

/// Appends the decimal digits of `n`.
pub fn push_dec_u64(out: &mut Vec<u8>, n: u64)
    ensures
        final(out)@ == old(out)@ + dec_digits(n as nat),
    decreases n,
{
    if n < 10 {
        out.push(48 + n as u8);
        proof {
            assert(out@ =~= old(out)@ + dec_digits(n as nat));
        }
    } else {
        let ghost out0 = out@;
        push_dec_u64(out, n / 10);
        out.push(48 + (n % 10) as u8);
        proof {
            assert(out@ =~= out0 + dec_digits(n as nat));
        }
    }
}

/// Value of the digit run `s[from..to]`, or `None` if it does not fit a u64.
pub fn parse_dec_range(s: &Vec<u8>, from: usize, to: usize) -> (r: Option<u64>)
    requires
        from <= to <= s@.len(),
        forall|j: int| from <= j < to ==> is_digit(#[trigger] s@[j]),
    ensures
        match r {
            Some(v) => v as int == dec_val(s@.subrange(from as int, to as int)),
            None => dec_val(s@.subrange(from as int, to as int)) > u64::MAX,
        },
{
    let mut acc: u64 = 0;
    let mut i: usize = from;
    while i < to
        invariant
            from <= i <= to <= s@.len(),
            forall|j: int| from <= j < to ==> is_digit(#[trigger] s@[j]),
            acc as int == dec_val(s@.subrange(from as int, i as int)),
        decreases to - i,
    {
        let d = s[i] - 48;
        proof {
            let p = s@.subrange(from as int, i as int + 1);
            assert(p.drop_last() =~= s@.subrange(from as int, i as int));
            assert(p.last() == s@[i as int]);
        }
        if acc > (u64::MAX - d as u64) / 10 {
            proof {
                lemma_dec_val_mono(s@, from as int, i as int + 1, to as int);
            }
            return None;
        }
        acc = acc * 10 + d as u64;
        i = i + 1;
    }
    Some(acc)
}

} // verus!
