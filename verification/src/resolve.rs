//! The input resolver: turns the directory listings of the configured
//! package subpaths into one deduplicated, lexicographically sorted list of
//! schema file paths. The sort is the defense against nondeterministic
//! filesystem enumeration order leaking into generated output, since the
//! compilers may embed input registration order in what they emit.

use vstd::prelude::*;
use vstd::string::*;

use crate::text::ends_with;
use crate::text::has_suffix;
use crate::text::lex_lt;
use crate::text::lemma_lex_lt_trichotomy;
use crate::text::lemma_lex_lt_transitive;
use crate::text::str_lex_lt;
use crate::text::str_eq;

verus! {

/// A path names a schema definition file: it has the schema extension, as a
/// proper extension of a nonempty file name.
pub open spec fn is_schema_file(s: Seq<char>) -> bool {
    &&& s.len() > ".proto"@.len()
    &&& ends_with(s, ".proto"@)
    &&& s[s.len() - ".proto"@.len() - 1] != '/'
}

/// The sequence is strictly increasing in the lexicographic order; in
/// particular it has no duplicates.
pub open spec fn strictly_sorted(v: Seq<Seq<char>>) -> bool {
    forall|i: int, j: int| 0 <= i < j < v.len() ==> lex_lt(v[i], v[j])
}

/// Tests whether `name` names a schema definition file.
pub fn is_schema_path(name: &str) -> (r: bool)
    ensures
        r == is_schema_file(name@),
{
    let suf_len = ".proto".unicode_len();
    if !has_suffix(name, ".proto") {
        return false;
    }
    let len = name.unicode_len();
    if len <= suf_len {
        return false;
    }
    let c = name.get_char(len - suf_len - 1);
    c != '/'
}

/// Inserts `x` into the sorted, duplicate-free vector `out`, keeping it
/// sorted; a path already present is not inserted again.
fn insert_sorted(out: &mut Vec<String>, x: String)
    requires
        strictly_sorted(old(out).deep_view()),
    ensures
        strictly_sorted(final(out).deep_view()),
        forall|s: Seq<char>|
            #[trigger] final(out).deep_view().contains(s) <==> (old(out).deep_view().contains(s)
                || s == x@),
{
    let ghost dv = out.deep_view();
    let mut i: usize = 0;
    while i < out.len() && str_lex_lt(out[i].as_str(), x.as_str())
        invariant
            dv == out.deep_view(),
            dv.len() == out.len(),
            i <= out.len(),
            strictly_sorted(dv),
            forall|k: int| 0 <= k < i ==> lex_lt(#[trigger] dv[k], x@),
        decreases out.len() - i,
    {
        i += 1;
    }
    if i < out.len() && str_eq(out[i].as_str(), x.as_str()) {
        proof {
            assert(dv[i as int] == x@);
            assert(dv.contains(x@));
        }
        return;
    }
    proof {
        if i < dv.len() {
            lemma_lex_lt_trichotomy(x@, dv[i as int]);
            assert(lex_lt(x@, dv[i as int]));
        }
    }
    let ghost pos = i as int;
    out.insert(i, x);
    proof {
        let new_dv = out.deep_view();
        assert(new_dv =~= dv.insert(pos, x@)) by {
            assert(forall|j: int|
                0 <= j < new_dv.len() ==> new_dv[j] == #[trigger] out@[j].deep_view());
        }
        assert forall|p: int, q: int|
            0 <= p < q < new_dv.len() implies lex_lt(new_dv[p], new_dv[q]) by {
            if q < pos {
            } else if p < pos && q == pos {
            } else if p < pos && q > pos {
                if p < q - 1 {
                } else {
                    assert(p == q - 1 && p < pos && pos <= q - 1);
                }
            } else if p == pos {
                assert(new_dv[p] == x@);
                assert(new_dv[q] == dv[q - 1] && q - 1 >= pos);
                if q - 1 > pos {
                    lemma_lex_lt_transitive(x@, dv[pos], dv[q - 1]);
                }
            } else {
            }
        }
        assert forall|s: Seq<char>|
            #[trigger] new_dv.contains(s) <==> (dv.contains(s) || s == x@) by {
            if new_dv.contains(s) {
                let j = choose|j: int| 0 <= j < new_dv.len() && new_dv[j] == s;
                if j < pos {
                    assert(dv[j] == s);
                } else if j == pos {
                } else {
                    assert(dv[j - 1] == s);
                }
            }
            if dv.contains(s) {
                let j = choose|j: int| 0 <= j < dv.len() && dv[j] == s;
                if j < pos {
                    assert(new_dv[j] == s);
                } else {
                    assert(new_dv[j + 1] == s);
                }
            }
            if s == x@ {
                assert(new_dv[pos] == s);
            }
        }
    }
}

/// Resolves the raw directory listings of the configured packages into the
/// input set: schema files only, deduplicated, sorted by full path. The
/// output order depends only on which paths were listed, never on the order
/// the filesystem handed them out in.
pub fn resolve(entries: &Vec<String>) -> (r: Vec<String>)
    ensures
        strictly_sorted(r.deep_view()),
        forall|s: Seq<char>|
            #[trigger] r.deep_view().contains(s) <==> (entries.deep_view().contains(s)
                && is_schema_file(s)),
{
    let ghost ev = entries.deep_view();
    let mut out: Vec<String> = Vec::new();
    let mut i: usize = 0;
    proof {
        assert(out.deep_view() =~= Seq::<Seq<char>>::empty());
    }
    while i < entries.len()
        invariant
            ev == entries.deep_view(),
            ev.len() == entries.len(),
            i <= entries.len(),
            strictly_sorted(out.deep_view()),
            forall|s: Seq<char>|
                #[trigger] out.deep_view().contains(s) <==> (ev.take(i as int).contains(s)
                    && is_schema_file(s)),
        decreases entries.len() - i,
    {
        let ghost prev = out.deep_view();
        let name = &entries[i];
        let schema = is_schema_path(name.as_str());
        if schema {
            insert_sorted(&mut out, name.clone());
        }
        proof {
            let t1 = ev.take(i + 1);
            let t0 = ev.take(i as int);
            assert(t1 =~= t0.push(ev[i as int]));
            assert forall|s: Seq<char>|
                #[trigger] out.deep_view().contains(s) <==> (t1.contains(s)
                    && is_schema_file(s)) by {
                assert(name@ == ev[i as int]);
                if t1.contains(s) {
                    let j = choose|j: int| 0 <= j < t1.len() && t1[j] == s;
                    if j < i {
                        assert(t0[j] == s);
                        assert(t0.contains(s));
                    }
                }
                if t0.contains(s) {
                    let j = choose|j: int| 0 <= j < t0.len() && t0[j] == s;
                    assert(t1[j] == s);
                }
                if s == ev[i as int] {
                    assert(t1[i as int] == s);
                }
            }
        }
        i += 1;
    }
    proof {
        assert(ev.take(ev.len() as int) =~= ev);
    }
    out
}

/// Resolution is deterministic: two listings that hold the same paths, in
/// any order and multiplicity, resolve to the same input set in the same
/// order. `r1` and `r2` stand for the outputs `resolve` is allowed to
/// produce for the two listings.
pub proof fn lemma_resolve_deterministic(
    a: Seq<Seq<char>>,
    b: Seq<Seq<char>>,
    r1: Seq<Seq<char>>,
    r2: Seq<Seq<char>>,
)
    requires
        a.to_multiset() == b.to_multiset(),
        strictly_sorted(r1),
        strictly_sorted(r2),
        forall|s: Seq<char>| #[trigger] r1.contains(s) <==> (a.contains(s) && is_schema_file(s)),
        forall|s: Seq<char>| #[trigger] r2.contains(s) <==> (b.contains(s) && is_schema_file(s)),
    ensures
        r1 == r2,
{
    assert forall|s: Seq<char>| #[trigger] a.contains(s) <==> b.contains(s) by {
        broadcast use vstd::seq_lib::group_to_multiset_ensures;

        assert(a.contains(s) <==> a.to_multiset().count(s) > 0);
        assert(b.contains(s) <==> b.to_multiset().count(s) > 0);
    }
    lemma_sorted_same_contains(r1, r2);
}

/// Two strictly sorted sequences holding the same elements are equal.
proof fn lemma_sorted_same_contains(r1: Seq<Seq<char>>, r2: Seq<Seq<char>>)
    requires
        strictly_sorted(r1),
        strictly_sorted(r2),
        forall|s: Seq<char>| #[trigger] r1.contains(s) <==> r2.contains(s),
    ensures
        r1 == r2,
    decreases r1.len(),
{
    if r1.len() == 0 {
        if r2.len() > 0 {
            assert(r1.contains(r2[0])) by {
                assert(r2.contains(r2[0]));
            }
        }
        assert(r1 =~= r2);
    } else {
        if r2.len() == 0 {
            assert(r2.contains(r1[0])) by {
                assert(r1.contains(r1[0]));
            }
        }
        assert(r1[0] == r2[0]) by {
            assert(r2.contains(r1[0])) by {
                assert(r1.contains(r1[0]));
            }
            assert(r1.contains(r2[0])) by {
                assert(r2.contains(r2[0]));
            }
            let j1 = choose|j: int| 0 <= j < r2.len() && r2[j] == r1[0];
            let j2 = choose|j: int| 0 <= j < r1.len() && r1[j] == r2[0];
            assert(r2[j1] == r1[0]);
            assert(r1[j2] == r2[0]);
            if r1[0] != r2[0] {
                lemma_lex_lt_trichotomy(r1[0], r2[0]);
                if lex_lt(r1[0], r2[0]) {
                    assert(j1 > 0);
                    assert(lex_lt(r2[0], r2[j1]));
                    lemma_lex_lt_trichotomy(r2[0], r1[0]);
                } else {
                    assert(j2 > 0);
                    assert(lex_lt(r1[0], r1[j2]));
                    lemma_lex_lt_trichotomy(r1[0], r2[0]);
                }
            }
        }
        let t1 = r1.skip(1);
        let t2 = r2.skip(1);
        assert forall|s: Seq<char>| #[trigger] t1.contains(s) <==> t2.contains(s) by {
            lemma_tail_contains(r1, s);
            lemma_tail_contains(r2, s);
        }
        assert(strictly_sorted(t1)) by {
            assert(forall|p: int, q: int|
                0 <= p < q < t1.len() ==> lex_lt(#[trigger] t1[p], #[trigger] t1[q]));
        }
        assert(strictly_sorted(t2)) by {
            assert(forall|p: int, q: int|
                0 <= p < q < t2.len() ==> lex_lt(#[trigger] t2[p], #[trigger] t2[q]));
        }
        lemma_sorted_same_contains(t1, t2);
        assert(t1.len() == t2.len());
        assert(r1.len() == r2.len());
        assert forall|j: int| 0 <= j < r1.len() implies r1[j] == r2[j] by {
            if j >= 1 {
                assert(r1[j] == t1[j - 1]);
                assert(r2[j] == t2[j - 1]);
            }
        }
        assert(r1 =~= r2);
    }
}

/// In a strictly sorted sequence, the tail holds exactly the elements other
/// than the head.
proof fn lemma_tail_contains(r: Seq<Seq<char>>, s: Seq<char>)
    requires
        strictly_sorted(r),
        r.len() > 0,
    ensures
        r.skip(1).contains(s) <==> (r.contains(s) && s != r[0]),
{
    let t = r.skip(1);
    if t.contains(s) {
        let j = choose|j: int| 0 <= j < t.len() && t[j] == s;
        assert(r[j + 1] == s);
        assert(r.contains(s));
        assert(lex_lt(r[0], r[j + 1]));
        lemma_lex_lt_trichotomy(r[0], r[j + 1]);
    }
    if r.contains(s) && s != r[0] {
        let j = choose|j: int| 0 <= j < r.len() && r[j] == s;
        assert(j >= 1);
        assert(t[j - 1] == s);
        assert(t.contains(s));
    }
}

} // verus!
