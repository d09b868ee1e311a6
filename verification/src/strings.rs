//! Verified string predicates used by the catalog logic: equality,
//! lexicographic comparison, prefix and substring tests.

use vstd::prelude::*;
use vstd::string::*;

verus! {

/// Lexicographic "less than or equal" over character sequences, comparing
/// code points position by position; a proper prefix sorts first.
pub open spec fn lex_leq(a: Seq<char>, b: Seq<char>) -> bool
    decreases a.len(),
{
    if a.len() == 0 {
        true
    } else if b.len() == 0 {
        false
    } else if (a[0] as u32) < (b[0] as u32) {
        true
    } else if (b[0] as u32) < (a[0] as u32) {
        false
    } else {
        lex_leq(a.skip(1), b.skip(1))
    }
}

/// `lex_leq` is total: any two sequences compare one way or the other.
pub proof fn lemma_lex_leq_total(a: Seq<char>, b: Seq<char>)
    ensures
        lex_leq(a, b) || lex_leq(b, a),
    decreases a.len(),
{
    if a.len() == 0 || b.len() == 0 {
    } else if (a[0] as u32) < (b[0] as u32) || (b[0] as u32) < (a[0] as u32) {
    } else {
        lemma_lex_leq_total(a.skip(1), b.skip(1));
    }
}

/// `lex_leq` is transitive.
pub proof fn lemma_lex_leq_trans(a: Seq<char>, b: Seq<char>, c: Seq<char>)
    requires
        lex_leq(a, b),
        lex_leq(b, c),
    ensures
        lex_leq(a, c),
    decreases a.len(),
{
    if a.len() == 0 {
    } else {
        // lex_leq(a, b) with a nonempty forces b nonempty, likewise c.
        if (a[0] as u32) < (b[0] as u32) || (b[0] as u32) < (c[0] as u32) {
        } else {
            lemma_lex_leq_trans(a.skip(1), b.skip(1), c.skip(1));
        }
    }
}

/// `p` is a prefix of `s`.
pub open spec fn is_prefix_of(p: Seq<char>, s: Seq<char>) -> bool {
    p.len() <= s.len() && p == s.subrange(0, p.len() as int)
}

/// `sub` occurs contiguously somewhere inside `s`.
pub open spec fn has_substring(s: Seq<char>, sub: Seq<char>) -> bool {
    exists|i: int|
        0 <= i <= s.len() - sub.len() && sub == #[trigger] s.subrange(i, i + sub.len() as int)
}

/// Character-for-character string equality.
pub fn str_eq(a: &str, b: &str) -> (r: bool)
    ensures
        r == (a@ == b@),
{
    let n: usize = a.unicode_len();
    if n != b.unicode_len() {
        return false;
    }
    let mut i: usize = 0;
    while i < n
        invariant
            n == a@.len(),
            n == b@.len(),
            0 <= i <= n,
            forall|j: int| 0 <= j < i ==> a@[j] == b@[j],
        decreases n - i,
    {
        if a.get_char(i) != b.get_char(i) {
            return false;
        }
        i = i + 1;
    }
    proof {
        assert(a@ =~= b@);
    }
    true
}

/// Lexicographic comparison of two strings by code point.
pub fn str_leq(a: &str, b: &str) -> (r: bool)
    ensures
        r == lex_leq(a@, b@),
{
    let n: usize = a.unicode_len();
    let m: usize = b.unicode_len();
    let mut i: usize = 0;
    proof {
        assert(a@.skip(0) =~= a@);
        assert(b@.skip(0) =~= b@);
    }
    while i < n && i < m
        invariant
            n == a@.len(),
            m == b@.len(),
            0 <= i <= n,
            0 <= i <= m,
            lex_leq(a@, b@) == lex_leq(a@.skip(i as int), b@.skip(i as int)),
        decreases n - i,
    {
        let ca = a.get_char(i);
        let cb = b.get_char(i);
        proof {
            assert(a@.skip(i as int)[0] == a@[i as int]);
            assert(b@.skip(i as int)[0] == b@[i as int]);
        }
        if (ca as u32) < (cb as u32) {
            return true;
        }
        if (cb as u32) < (ca as u32) {
            return false;
        }
        proof {
            assert(a@.skip(i as int).skip(1) =~= a@.skip(i + 1));
            assert(b@.skip(i as int).skip(1) =~= b@.skip(i + 1));
        }
        i = i + 1;
    }
    if i < m {
        // a is exhausted and is a proper prefix of b.
        proof {
            assert(a@.skip(i as int).len() == 0);
        }
        true
    } else if i < n {
        // b is exhausted and is a proper prefix of a.
        proof {
            assert(b@.skip(i as int).len() == 0);
            assert(a@.skip(i as int).len() > 0);
        }
        false
    } else {
        proof {
            assert(a@.skip(i as int).len() == 0);
        }
        true
    }
}

/// Whether `p` is a prefix of `s`.
pub fn str_has_prefix(s: &str, p: &str) -> (r: bool)
    ensures
        r == is_prefix_of(p@, s@),
{
    let np: usize = p.unicode_len();
    let ns: usize = s.unicode_len();
    if np > ns {
        return false;
    }
    let mut j: usize = 0;
    while j < np
        invariant
            np == p@.len(),
            ns == s@.len(),
            np <= ns,
            0 <= j <= np,
            forall|k: int| 0 <= k < j ==> p@[k] == s@[k],
        decreases np - j,
    {
        if p.get_char(j) != s.get_char(j) {
            proof {
                assert(s@.subrange(0, np as int)[j as int] == s@[j as int]);
            }
            return false;
        }
        j = j + 1;
    }
    proof {
        assert(p@ =~= s@.subrange(0, np as int));
    }
    true
}

/// Whether the characters of `sub`, in order and contiguously, occur in `s`
/// starting at position `i`.
fn matches_at(s: &str, i: usize, sub: &str) -> (r: bool)
    requires
        i + sub@.len() <= s@.len(),
    ensures
        r == (sub@ == s@.subrange(i as int, i + sub@.len() as int)),
{
    let m: usize = sub.unicode_len();
    let n: usize = s.unicode_len();
    let mut j: usize = 0;
    while j < m
        invariant
            m == sub@.len(),
            n == s@.len(),
            i + m <= n,
            0 <= j <= m,
            forall|k: int| 0 <= k < j ==> sub@[k] == s@[i + k],
        decreases m - j,
    {
        if sub.get_char(j) != s.get_char(i + j) {
            proof {
                assert(s@.subrange(i as int, i + m as int)[j as int] == s@[i + j]);
            }
            return false;
        }
        j = j + 1;
    }
    proof {
        assert(sub@ =~= s@.subrange(i as int, i + m as int));
    }
    true
}

/// Substring search: whether `sub` occurs anywhere inside `s`.
pub fn str_contains_sub(s: &str, sub: &str) -> (r: bool)
    ensures
        r == has_substring(s@, sub@),
{
    let m: usize = sub.unicode_len();
    let n: usize = s.unicode_len();
    if m > n {
        proof {
            assert(!has_substring(s@, sub@));
        }
        return false;
    }
    if m == 0 {
        proof {
            assert(sub@ =~= s@.subrange(0, 0 + sub@.len() as int));
        }
        return true;
    }
    let mut i: usize = 0;
    loop
        invariant
            m == sub@.len(),
            n == s@.len(),
            1 <= m <= n,
            0 <= i <= n - m + 1,
            forall|k: int|
                0 <= k < i ==> sub@ != #[trigger] s@.subrange(k, k + sub@.len() as int),
        decreases n - m + 1 - i,
    {
        if i > n - m {
            proof {
                assert(!has_substring(s@, sub@));
            }
            return false;
        }
        if matches_at(s, i, sub) {
            proof {
                assert(0 <= i as int <= s@.len() - sub@.len());
            }
            return true;
        }
        i = i + 1;
    }
}

} // verus!
