//! Declarative route guards: an independent protection in front of a
//! handler. The shared-secret gate matches a `password` query parameter
//! against a configured literal; the bearer gate requires a valid, unexpired
//! token and hands the subject to the handler explicitly. Both fail closed:
//! missing, malformed or mismatched credentials reject before the handler.

use vstd::prelude::*;
use vstd::string::StrSliceExecFns;
use crate::context::{bearer_token_of, extract_bearer};
use crate::errors::AuthError;
use crate::token::{token_verdict, validate_token};
use vstd::utf8::encode_utf8;

verus! {

/// First position of `c` in `q` at or after `i`; the length if absent.
pub open spec fn find_char(q: Seq<char>, i: int, c: char) -> int
    recommends
        0 <= i,
    decreases q.len() - i,
{
    if i < q.len() {
        if q[i] == c {
            i
        } else {
            find_char(q, i + 1, c)
        }
    } else {
        q.len() as int
    }
}

/// Bounds and meaning of `find_char`.
pub proof fn lemma_find_char(q: Seq<char>, i: int, c: char)
    requires
        0 <= i,
    ensures
        i <= find_char(q, i, c) || find_char(q, i, c) == q.len(),
        find_char(q, i, c) <= q.len(),
        forall|j: int| i <= j < find_char(q, i, c) ==> q[j] != c,
        find_char(q, i, c) < q.len() ==> q[find_char(q, i, c)] == c,
    decreases q.len() - i,
{
    if i < q.len() && q[i] != c {
        lemma_find_char(q, i + 1, c);
    }
}

/// The nine characters of `password=`.
pub open spec fn password_key_eq() -> Seq<char> {
    seq!['p', 'a', 's', 's', 'w', 'o', 'r', 'd', '=']
}

/// Whether the query segment `q[a..b]` is `password=` followed by exactly
/// the expected secret. The value is everything after the first `=`, so the
/// secret may itself contain `=`.
pub open spec fn seg_matches(q: Seq<char>, a: int, b: int, pw: Seq<char>) -> bool {
    q.subrange(a, b) == password_key_eq() + pw
}

/// Whether some `&`-separated segment of the query at or after `i` carries
/// the expected secret.
pub open spec fn query_accepts_from(q: Seq<char>, i: int, pw: Seq<char>) -> bool
    decreases q.len() - i,
{
    if i < 0 || i > q.len() {
        false
    } else {
        let k = find_char(q, i, '&');
        if i <= k < q.len() {
            seg_matches(q, i, k, pw) || query_accepts_from(q, k + 1, pw)
        } else {
            seg_matches(q, i, k, pw)
        }
    }
}

/// Whether the query string carries the expected secret as a `password`
/// parameter.
pub open spec fn query_accepts(q: Seq<char>, pw: Seq<char>) -> bool {
    query_accepts_from(q, 0, pw)
}

/// First position of `c` in `q` at or after `from`; the length if absent.
fn find_char_exec(q: &str, from: usize, c: char) -> (r: usize)
    requires
        from <= q@.len(),
    ensures
        r == find_char(q@, from as int, c),
        from <= r <= q@.len(),
{
    let n = q.unicode_len();
    let mut i: usize = from;
    while i < n && q.get_char(i) != c
        invariant
            from <= i <= n,
            n == q@.len(),
            find_char(q@, from as int, c) == find_char(q@, i as int, c),
        decreases n - i,
    {
        i = i + 1;
    }
    i
}

/// Whether the query segment `q[a..b]` is `password=` followed by the
/// expected secret.
fn segment_matches(q: &str, a: usize, b: usize, pw: &str) -> (r: bool)
    requires
        a <= b <= q@.len(),
    ensures
        r == seg_matches(q@, a as int, b as int, pw@),
{
    let ghost seg = q@.subrange(a as int, b as int);
    let ghost want = password_key_eq() + pw@;
    proof {
        assert(want.len() == 9 + pw@.len());
        assert(seg.len() == b - a);
    }
    let m = pw.unicode_len();
    if b - a < 9 || b - a - 9 != m {
        proof {
            if seg == want {
                assert(seg.len() == want.len());
            }
        }
        return false;
    }
    let ok = q.get_char(a) == 'p' && q.get_char(a + 1) == 'a' && q.get_char(a + 2) == 's'
        && q.get_char(a + 3) == 's' && q.get_char(a + 4) == 'w' && q.get_char(a + 5) == 'o'
        && q.get_char(a + 6) == 'r' && q.get_char(a + 7) == 'd' && q.get_char(a + 8) == '=';
    proof {
        let ai = a as int;
        assert(seg[0] == q@[ai] && seg[1] == q@[ai + 1] && seg[2] == q@[ai + 2] && seg[3] == q@[ai
            + 3] && seg[4] == q@[ai + 4] && seg[5] == q@[ai + 5] && seg[6] == q@[ai + 6] && seg[7]
            == q@[ai + 7] && seg[8] == q@[ai + 8]);
        assert(want[0] == 'p' && want[1] == 'a' && want[2] == 's' && want[3] == 's' && want[4]
            == 'w' && want[5] == 'o' && want[6] == 'r' && want[7] == 'd' && want[8] == '=');
    }
    if !ok {
        proof {
            if seg == want {
                assert(seg[0] == want[0] && seg[1] == want[1] && seg[2] == want[2] && seg[3]
                    == want[3] && seg[4] == want[4] && seg[5] == want[5] && seg[6] == want[6]
                    && seg[7] == want[7] && seg[8] == want[8]);
            }
        }
        return false;
    }
    let mut j: usize = 0;
    while j < m
        invariant
            j <= m,
            m == pw@.len(),
            a + 9 + m == b,
            b <= q@.len(),
            seg == q@.subrange(a as int, b as int),
            want == password_key_eq() + pw@,
            forall|k: int| 0 <= k < j ==> q@[a + 9 + k] == pw@[k],
        decreases m - j,
    {
        if q.get_char(a + 9 + j) != pw.get_char(j) {
            proof {
                let ji = j as int;
                assert(seg[9 + ji] == q@[a as int + 9 + ji]);
                assert(want[9 + ji] == pw@[ji]);
                if seg == want {
                    assert(seg[9 + ji] == want[9 + ji]);
                }
            }
            return false;
        }
        j = j + 1;
    }
    proof {
        assert forall|k: int| 0 <= k < seg.len() implies seg[k] == want[k] by {
            assert(seg[k] == q@[a + k]);
            if k >= 9 {
                assert(want[k] == pw@[k - 9]);
                assert(q@[a + 9 + (k - 9)] == pw@[k - 9]);
            }
        }
        assert(seg =~= want);
    }
    true
}

/// Whether the request's query string carries the expected secret in a
/// `password` parameter, by plain equality on the value after the first `=`.
pub fn check_password(query: &str, expected_password: &str) -> (r: bool)
    ensures
        r == query_accepts(query@, expected_password@),
{
    let n = query.unicode_len();
    let mut i: usize = 0;
    loop
        invariant
            i <= n,
            n == query@.len(),
            query_accepts(query@, expected_password@) == query_accepts_from(
                query@,
                i as int,
                expected_password@,
            ),
        decreases n - i,
    {
        let k = find_char_exec(query, i, '&');
        proof {
            lemma_find_char(query@, i as int, '&');
        }
        if segment_matches(query, i, k, expected_password) {
            return true;
        }
        if k == n {
            return false;
        }
        i = k + 1;
    }
}

/// Decision of the shared-secret route guard: accepts only a query that
/// carries the expected secret; mismatch or absence rejects before the
/// handler runs.
pub fn shared_secret_gate(query: &str, expected_password: &str) -> (r: Result<(), AuthError>)
    ensures
        r == if query_accepts(query@, expected_password@) {
            Ok::<(), AuthError>(())
        } else {
            Err::<(), AuthError>(AuthError::CredentialInvalid)
        },
{
    if check_password(query, expected_password) {
        Ok(())
    } else {
        Err(AuthError::CredentialInvalid)
    }
}

/// Decision of the bearer-required route guard: the subject of a valid,
/// unexpired token, or the distinct refusal; a missing header or a
/// non-bearer scheme is "no credential supplied".
pub fn bearer_gate(auth_header: Option<&str>, secret: &[u8], now: u64) -> (r: Result<
    i32,
    AuthError,
>)
    ensures
        match auth_header {
            None => r == Err::<i32, AuthError>(AuthError::CredentialAbsent),
            Some(h) => match bearer_token_of(h@) {
                None => r == Err::<i32, AuthError>(AuthError::CredentialAbsent),
                Some(tok) => match token_verdict(encode_utf8(tok), secret@, now as nat) {
                    Ok(se) => r matches Ok(sub) && sub as int == se.0,
                    Err(e) => r == Err::<i32, AuthError>(e),
                },
            },
        },
{
    let h = match auth_header {
        Some(h) => h,
        None => {
            return Err(AuthError::CredentialAbsent);
        },
    };
    let tok = match extract_bearer(h) {
        Some(t) => t,
        None => {
            return Err(AuthError::CredentialAbsent);
        },
    };
    match validate_token(tok.as_str(), secret, now) {
        Ok(c) => Ok(c.sub),
        Err(e) => Err(e),
    }
}

} // verus!
