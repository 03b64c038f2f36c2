//! Character-sequence primitives shared by the patch, cleanup and input
//! resolution stages: substring matching and a total lexicographic order on
//! strings.

use vstd::prelude::*;
use vstd::string::*;

verus! {

/// The pattern `pat` occurs in `s` starting at position `i`.
pub open spec fn matches_at(s: Seq<char>, pat: Seq<char>, i: int) -> bool {
    &&& 0 <= i
    &&& i + pat.len() <= s.len()
    &&& s.subrange(i, i + pat.len() as int) == pat
}

/// The pattern `pat` occurs somewhere in `s`.
pub open spec fn contains_seq(s: Seq<char>, pat: Seq<char>) -> bool {
    exists|i: int| matches_at(s, pat, i)
}

/// Strict lexicographic order on character sequences, comparing code points.
pub open spec fn lex_lt(a: Seq<char>, b: Seq<char>) -> bool
    decreases a.len(),
{
    if b.len() == 0 {
        false
    } else if a.len() == 0 {
        true
    } else if a[0] != b[0] {
        (a[0] as u32) < (b[0] as u32)
    } else {
        lex_lt(a.skip(1), b.skip(1))
    }
}

/// Distinct characters have distinct code points.
proof fn lemma_char_ne(x: char, y: char)
    requires
        x != y,
    ensures
        (x as u32) != (y as u32),
{
}

/// The lexicographic order is a strict total order: of `a < b`, `a == b` and
/// `b < a`, exactly one holds.
pub proof fn lemma_lex_lt_trichotomy(a: Seq<char>, b: Seq<char>)
    ensures
        lex_lt(a, b) || a == b || lex_lt(b, a),
        lex_lt(a, b) ==> a != b && !lex_lt(b, a),
        a == b ==> !lex_lt(a, b),
    decreases a.len(),
{
    if a.len() == 0 && b.len() == 0 {
        assert(a =~= b);
    } else if a.len() == 0 || b.len() == 0 {
        assert(a != b);
    } else if a[0] != b[0] {
        lemma_char_ne(a[0], b[0]);
        assert(a != b) by {
            if a == b {
                assert(a[0] == b[0]);
            }
        }
    } else {
        lemma_lex_lt_trichotomy(a.skip(1), b.skip(1));
        if a.skip(1) == b.skip(1) {
            assert(a.skip(1).len() == b.skip(1).len());
            assert forall|i: int| 0 <= i < a.len() implies a[i] == b[i] by {
                if i >= 1 {
                    assert(a.skip(1)[i - 1] == b.skip(1)[i - 1]);
                }
            }
            assert(a =~= b);
        }
        if a == b {
            assert(a.skip(1) =~= b.skip(1));
        }
    }
}

/// The lexicographic order is transitive.
pub proof fn lemma_lex_lt_transitive(a: Seq<char>, b: Seq<char>, c: Seq<char>)
    requires
        lex_lt(a, b),
        lex_lt(b, c),
    ensures
        lex_lt(a, c),
    decreases a.len(),
{
    if a.len() == 0 {
        assert(c.len() > 0);
    } else {
        assert(b.len() > 0);
        assert(c.len() > 0);
        if a[0] == b[0] && b[0] == c[0] {
            lemma_lex_lt_transitive(a.skip(1), b.skip(1), c.skip(1));
        }
    }
}

/// Tests whether `pat` occurs in `s` at position `i`.
pub fn match_at(s: &str, pat: &str, i: usize) -> (r: bool)
    ensures
        r == matches_at(s@, pat@, i as int),
{
    let s_len = s.unicode_len();
    let pat_len = pat.unicode_len();
    if i > s_len || pat_len > s_len - i {
        return false;
    }
    let mut j: usize = 0;
    while j < pat_len
        invariant
            i + pat_len <= s_len,
            s_len == s@.len(),
            pat_len == pat@.len(),
            j <= pat_len,
            forall|k: int| 0 <= k < j ==> s@[i + k] == pat@[k],
        decreases pat_len - j,
    {
        if s.get_char(i + j) != pat.get_char(j) {
            assert(s@.subrange(i as int, i + pat@.len() as int) != pat@) by {
                assert(s@.subrange(i as int, i + pat@.len() as int)[j as int] != pat@[j as int]);
            }
            return false;
        }
        j += 1;
    }
    assert(s@.subrange(i as int, i + pat@.len() as int) =~= pat@);
    true
}

/// Tests whether `pat` occurs anywhere in `s`.
pub fn contains_str(s: &str, pat: &str) -> (r: bool)
    ensures
        r == contains_seq(s@, pat@),
{
    let s_len = s.unicode_len();
    let pat_len = pat.unicode_len();
    if pat_len == 0 {
        assert(matches_at(s@, pat@, 0)) by {
            assert(s@.subrange(0, 0) =~= pat@);
        }
        return true;
    }
    if pat_len > s_len {
        assert(!contains_seq(s@, pat@)) by {
            assert(forall|i: int| !matches_at(s@, pat@, i));
        }
        return false;
    }
    let end = s_len - pat_len;
    let mut i: usize = 0;
    while i < end + 1
        invariant
            1 <= pat_len <= s_len,
            s_len == s@.len(),
            pat_len == pat@.len(),
            end == s_len - pat_len,
            i <= end + 1,
            forall|k: int| 0 <= k < i ==> !matches_at(s@, pat@, k),
        decreases end + 1 - i,
    {
        if match_at(s, pat, i) {
            return true;
        }
        i += 1;
    }
    assert forall|k: int| !matches_at(s@, pat@, k) by {
        if k > s@.len() - pat@.len() {
            assert(!matches_at(s@, pat@, k));
        }
    }
    false
}

/// Compares two strings in the lexicographic order.
pub fn str_lex_lt(a: &str, b: &str) -> (r: bool)
    ensures
        r == lex_lt(a@, b@),
    decreases a@.len(),
{
    let a_len = a.unicode_len();
    let b_len = b.unicode_len();
    let mut i: usize = 0;
    proof {
        assert(a@.skip(0) =~= a@);
        assert(b@.skip(0) =~= b@);
    }
    loop
        invariant
            a_len == a@.len(),
            b_len == b@.len(),
            i <= a_len,
            i <= b_len,
            lex_lt(a@, b@) == lex_lt(a@.skip(i as int), b@.skip(i as int)),
        decreases a_len - i,
    {
        if i >= b_len {
            assert(b@.skip(i as int).len() == 0);
            return false;
        }
        if i >= a_len {
            assert(a@.skip(i as int).len() == 0 && b@.skip(i as int).len() > 0);
            return true;
        }
        let ca = a.get_char(i);
        let cb = b.get_char(i);
        if ca != cb {
            assert(a@.skip(i as int)[0] == ca && b@.skip(i as int)[0] == cb);
            return (ca as u32) < (cb as u32);
        }
        proof {
            lemma_lex_lt_skip_one(a@.skip(i as int), b@.skip(i as int));
            assert(a@.skip(i as int).skip(1) =~= a@.skip(i + 1));
            assert(b@.skip(i as int).skip(1) =~= b@.skip(i + 1));
        }
        i += 1;
    }
}

/// Removing an equal first character from both sides preserves the order.
proof fn lemma_lex_lt_skip_one(a: Seq<char>, b: Seq<char>)
    requires
        a.len() > 0,
        b.len() > 0,
        a[0] == b[0],
    ensures
        lex_lt(a, b) == lex_lt(a.skip(1), b.skip(1)),
{
}

/// `s` begins with the prefix `prefix`.
pub open spec fn begins_with(s: Seq<char>, prefix: Seq<char>) -> bool {
    matches_at(s, prefix, 0)
}

/// Tests whether `s` begins with `prefix`.
pub fn has_prefix(s: &str, prefix: &str) -> (r: bool)
    ensures
        r == begins_with(s@, prefix@),
{
    match_at(s, prefix, 0)
}

/// `s` ends with the suffix `suffix`.
pub open spec fn ends_with(s: Seq<char>, suffix: Seq<char>) -> bool {
    s.len() >= suffix.len() && matches_at(s, suffix, s.len() - suffix.len())
}

/// Tests whether `s` ends with `suffix`.
pub fn has_suffix(s: &str, suffix: &str) -> (r: bool)
    ensures
        r == ends_with(s@, suffix@),
{
    let s_len = s.unicode_len();
    let suffix_len = suffix.unicode_len();
    if suffix_len > s_len {
        return false;
    }
    match_at(s, suffix, s_len - suffix_len)
}

/// Tests two strings for equality of their character sequences.
pub fn str_eq(a: &str, b: &str) -> (r: bool)
    ensures
        r == (a@ == b@),
{
    let a_len = a.unicode_len();
    let b_len = b.unicode_len();
    if a_len != b_len {
        return false;
    }
    let mut i: usize = 0;
    while i < a_len
        invariant
            a_len == a@.len(),
            a_len == b@.len(),
            i <= a_len,
            forall|k: int| 0 <= k < i ==> a@[k] == b@[k],
        decreases a_len - i,
    {
        if a.get_char(i) != b.get_char(i) {
            return false;
        }
        i += 1;
    }
    assert(a@ =~= b@);
    true
}

} // verus!
