//! The merge and cleanup stage for the primary codec's output: appending a
//! re-export of each service-stub module to its message-definition sibling,
//! and stripping every line that references the generator runtime's version
//! equality check, an environment-coupled assertion that would make output
//! differ across builder versions.

use vstd::prelude::*;
use vstd::string::*;

use crate::text::contains_seq;
use crate::text::contains_str;
use crate::text::ends_with;
use crate::text::has_suffix;

verus! {

/// Position of the first newline in `s`, or `s.len()` if there is none.
pub open spec fn first_newline(s: Seq<char>) -> nat
    decreases s.len(),
{
    if s.len() == 0 {
        0
    } else if s[0] == '\n' {
        0
    } else {
        1 + first_newline(s.skip(1))
    }
}

/// `first_newline` points at the first newline: nothing before it is a
/// newline, and it is a newline unless the sequence has none.
pub proof fn lemma_first_newline(s: Seq<char>)
    ensures
        first_newline(s) <= s.len(),
        forall|j: int| 0 <= j < first_newline(s) ==> s[j] != '\n',
        first_newline(s) < s.len() ==> s[first_newline(s) as int] == '\n',
    decreases s.len(),
{
    if s.len() == 0 || s[0] == '\n' {
    } else {
        lemma_first_newline(s.skip(1));
        assert forall|j: int| 0 <= j < first_newline(s) implies s[j] != '\n' by {
            if j >= 1 {
                assert(s[j] == s.skip(1)[j - 1]);
            }
        }
        if first_newline(s) < s.len() {
            assert(s[first_newline(s) as int] == s.skip(1)[first_newline(s) - 1]);
        }
    }
}

/// The lines of `s`, split at newlines; a trailing newline does not open a
/// final empty line.
pub open spec fn split_lines(s: Seq<char>) -> Seq<Seq<char>>
    decreases s.len(),
{
    if s.len() == 0 {
        Seq::empty()
    } else {
        let e = first_newline(s);
        let rest = if e < s.len() {
            s.skip(e + 1 as int)
        } else {
            Seq::<char>::empty()
        };
        seq![s.take(e as int)] + split_lines(rest)
    }
}

/// `s` with every line containing `needle` removed; every kept line is
/// terminated by a newline in the result.
pub open spec fn strip_matching(s: Seq<char>, needle: Seq<char>) -> Seq<char>
    decreases s.len(),
{
    if s.len() == 0 {
        s
    } else {
        let e = first_newline(s);
        let line = s.take(e as int);
        let rest = if e < s.len() {
            s.skip(e + 1 as int)
        } else {
            Seq::<char>::empty()
        };
        (if contains_seq(line, needle) {
            Seq::<char>::empty()
        } else {
            line + seq!['\n']
        }) + strip_matching(rest, needle)
    }
}

/// Position of the first newline in `data` at or after `from`, or the length
/// of `data` if there is none.
fn find_newline(data: &str, from: usize) -> (e: usize)
    requires
        from <= data@.len(),
    ensures
        e == from + first_newline(data@.skip(from as int)),
        e <= data@.len(),
{
    let len = data.unicode_len();
    let mut j = from;
    while j < len
        invariant
            from <= j <= len,
            len == data@.len(),
            first_newline(data@.skip(from as int)) == (j - from) + first_newline(
                data@.skip(j as int),
            ),
        decreases len - j,
    {
        let c = data.get_char(j);
        proof {
            assert(data@.skip(j as int)[0] == c);
            assert(data@.skip(j as int).skip(1) =~= data@.skip(j + 1));
        }
        if c == '\n' {
            return j;
        }
        j += 1;
    }
    proof {
        assert(data@.skip(len as int).len() == 0);
    }
    j
}

/// Copies `data`, leaving out every line that contains `pattern`. Kept lines
/// are unchanged and keep their relative order; each is terminated with a
/// newline in the result.
pub fn remove_match(data: &str, pattern: &str) -> (r: String)
    ensures
        r@ == strip_matching(data@, pattern@),
{
    let len = data.unicode_len();
    let mut r = String::new();
    let mut i: usize = 0;
    proof {
        assert(data@.skip(0) =~= data@);
        assert(Seq::<char>::empty() + strip_matching(data@, pattern@) =~= strip_matching(
            data@,
            pattern@,
        ));
    }
    while i < len
        invariant
            len == data@.len(),
            i <= len,
            strip_matching(data@, pattern@) == r@ + strip_matching(
                data@.skip(i as int),
                pattern@,
            ),
        decreases len - i,
    {
        let ghost t = data@.skip(i as int);
        let ghost prev = r@;
        let e = find_newline(data, i);
        proof {
            lemma_first_newline(t);
            assert(t.take((e - i) as int) =~= data@.subrange(i as int, e as int));
            if e < len {
                assert(t.skip((e - i) + 1) =~= data@.skip(e + 1));
            } else {
                assert((e - i) as nat == first_newline(t));
                assert(first_newline(t) == t.len());
            }
        }
        let line = data.substring_char(i, e);
        let keep = !contains_str(line, pattern);
        let ghost tail = strip_matching(
            if e < len {
                data@.skip(e + 1)
            } else {
                Seq::<char>::empty()
            },
            pattern@,
        );
        proof {
            assert(strip_matching(t, pattern@) == (if contains_seq(line@, pattern@) {
                Seq::<char>::empty()
            } else {
                line@ + seq!['\n']
            }) + tail);
        }
        if keep {
            r.append(line);
            r.append("\n");
            proof {
                reveal_strlit("\n");
                assert("\n"@ =~= seq!['\n']);
                assert(r@ =~= prev + (line@ + seq!['\n']));
                assert(prev + ((line@ + seq!['\n']) + tail) =~= r@ + tail);
            }
        } else {
            proof {
                assert(prev + (Seq::<char>::empty() + tail) =~= r@ + tail);
            }
        }
        if e < len {
            i = e + 1;
        } else {
            i = len;
            proof {
                assert(strip_matching(data@.skip(len as int), pattern@) == tail) by {
                    assert(data@.skip(len as int).len() == 0);
                    assert(data@.skip(len as int) =~= Seq::<char>::empty());
                }
            }
        }
    }
    proof {
        assert(data@.skip(len as int) =~= Seq::<char>::empty());
        assert(r@ + Seq::<char>::empty() =~= r@);
    }
    r
}

/// A sequence holds no newline.
pub open spec fn newline_free(a: Seq<char>) -> bool {
    forall|j: int| 0 <= j < a.len() ==> a[j] != '\n'
}

/// The lines of `s` that do not contain `needle`, in their original order.
pub open spec fn kept_lines(s: Seq<char>, needle: Seq<char>) -> Seq<Seq<char>> {
    split_lines(s).filter(|l: Seq<char>| !contains_seq(l, needle))
}

/// In a newline-terminated first line followed by `b`, the first newline
/// stands right after that line.
proof fn lemma_newline_free_concat(a: Seq<char>, b: Seq<char>)
    requires
        newline_free(a),
    ensures
        first_newline(a + seq!['\n'] + b) == a.len(),
    decreases a.len(),
{
    let s = a + seq!['\n'] + b;
    if a.len() == 0 {
        assert(s[0] == '\n');
    } else {
        assert(s[0] == a[0]);
        assert(s.skip(1) =~= a.skip(1) + seq!['\n'] + b);
        assert(newline_free(a.skip(1))) by {
            assert(forall|j: int| 0 <= j < a.skip(1).len() ==> #[trigger] a.skip(1)[j] == a[j
                + 1]);
        }
        lemma_newline_free_concat(a.skip(1), b);
    }
}

/// Splitting starts with the newline-terminated first line.
proof fn lemma_split_concat(a: Seq<char>, b: Seq<char>)
    requires
        newline_free(a),
    ensures
        split_lines(a + seq!['\n'] + b) == seq![a] + split_lines(b),
{
    let s = a + seq!['\n'] + b;
    lemma_newline_free_concat(a, b);
    assert(s.len() > 0);
    assert(s.take(a.len() as int) =~= a);
    assert(s.skip(a.len() + 1 as int) =~= b);
}

/// Stripping treats the newline-terminated first line on its own, then the
/// rest.
proof fn lemma_strip_concat(a: Seq<char>, b: Seq<char>, needle: Seq<char>)
    requires
        newline_free(a),
    ensures
        strip_matching(a + seq!['\n'] + b, needle) == (if contains_seq(a, needle) {
            Seq::<char>::empty()
        } else {
            a + seq!['\n']
        }) + strip_matching(b, needle),
{
    let s = a + seq!['\n'] + b;
    lemma_newline_free_concat(a, b);
    assert(s.len() > 0);
    assert(s.take(a.len() as int) =~= a);
    assert(s.skip(a.len() + 1 as int) =~= b);
}

/// A single line is kept whole by the filter, or dropped whole.
proof fn lemma_filter_singleton(x: Seq<char>, needle: Seq<char>)
    ensures
        seq![x].filter(|l: Seq<char>| !contains_seq(l, needle)) == (if contains_seq(x, needle) {
            Seq::<Seq<char>>::empty()
        } else {
            seq![x]
        }),
{
    reveal(Seq::filter);
    let pred = |l: Seq<char>| !contains_seq(l, needle);
    let s = seq![x];
    assert(s.drop_last() =~= Seq::<Seq<char>>::empty());
    assert(Seq::<Seq<char>>::empty().filter(pred) == Seq::<Seq<char>>::empty());
    assert(s.last() == x);
    assert(Seq::<Seq<char>>::empty().push(x) =~= seq![x]);
}

/// Version-line stripping is exact: the lines of the stripped text are
/// precisely the lines of the original that do not contain the needle,
/// unchanged and in their original relative order; no line containing the
/// needle remains.
pub proof fn lemma_strip_matching_lines(s: Seq<char>, needle: Seq<char>)
    ensures
        split_lines(strip_matching(s, needle)) == kept_lines(s, needle),
    decreases s.len(),
{
    let pred = |l: Seq<char>| !contains_seq(l, needle);
    if s.len() == 0 {
        reveal(Seq::filter);
        assert(split_lines(s).len() == 0);
        assert(strip_matching(s, needle).len() == 0);
    } else {
        lemma_first_newline(s);
        let e = first_newline(s);
        let line = s.take(e as int);
        assert(newline_free(line)) by {
            assert(forall|j: int| 0 <= j < line.len() ==> #[trigger] line[j] == s[j]);
        }
        if e < s.len() {
            let b = s.skip(e + 1 as int);
            assert(s =~= line + seq!['\n'] + b);
            lemma_split_concat(line, b);
            lemma_strip_concat(line, b, needle);
            lemma_strip_matching_lines(b, needle);
            Seq::<Seq<char>>::filter_distributes_over_add(seq![line], split_lines(b), pred);
            lemma_filter_singleton(line, needle);
            if contains_seq(line, needle) {
                assert(strip_matching(s, needle) =~= strip_matching(b, needle));
                assert(kept_lines(s, needle) =~= kept_lines(b, needle));
            } else {
                assert(line + seq!['\n'] + strip_matching(b, needle) =~= (line + seq!['\n'])
                    + strip_matching(b, needle));
                lemma_split_concat(line, strip_matching(b, needle));
                assert(kept_lines(s, needle) =~= seq![line] + kept_lines(b, needle));
            }
        } else {
            assert(line =~= s);
            assert(strip_matching(Seq::<char>::empty(), needle) == Seq::<char>::empty());
            assert(split_lines(s) == seq![s] + split_lines(Seq::<char>::empty()));
            lemma_filter_singleton(s, needle);
            Seq::<Seq<char>>::filter_distributes_over_add(
                seq![s],
                Seq::<Seq<char>>::empty(),
                pred,
            );
            reveal(Seq::filter);
            if contains_seq(s, needle) {
                assert(strip_matching(s, needle) =~= Seq::<char>::empty());
                assert(kept_lines(s, needle) =~= Seq::<Seq<char>>::empty());
            } else {
                assert(strip_matching(s, needle) =~= s + seq!['\n'] + Seq::<char>::empty());
                lemma_split_concat(s, Seq::<char>::empty());
                assert(kept_lines(s, needle) =~= seq![s]);
                assert(split_lines(strip_matching(s, needle)) =~= seq![s]);
            }
        }
    }
}

/// Stripping is idempotent: a second pass over already-stripped text changes
/// nothing, so reprocessing a cleaned file is harmless.
pub proof fn lemma_strip_matching_idempotent(s: Seq<char>, needle: Seq<char>)
    ensures
        strip_matching(strip_matching(s, needle), needle) == strip_matching(s, needle),
    decreases s.len(),
{
    if s.len() == 0 {
    } else {
        lemma_first_newline(s);
        let e = first_newline(s);
        let line = s.take(e as int);
        assert(newline_free(line)) by {
            assert(forall|j: int| 0 <= j < line.len() ==> #[trigger] line[j] == s[j]);
        }
        if e < s.len() {
            let b = s.skip(e + 1 as int);
            assert(s =~= line + seq!['\n'] + b);
            lemma_strip_concat(line, b, needle);
            lemma_strip_matching_idempotent(b, needle);
            if contains_seq(line, needle) {
                assert(strip_matching(s, needle) =~= strip_matching(b, needle));
            } else {
                assert(strip_matching(s, needle) =~= line + seq!['\n'] + strip_matching(
                    b,
                    needle,
                ));
                lemma_strip_concat(line, strip_matching(b, needle), needle);
                assert(strip_matching(strip_matching(s, needle), needle) =~= strip_matching(
                    s,
                    needle,
                ));
            }
        } else {
            assert(line =~= s);
            assert(strip_matching(Seq::<char>::empty(), needle) == Seq::<char>::empty());
            if contains_seq(s, needle) {
                assert(strip_matching(s, needle) =~= Seq::<char>::empty());
            } else {
                assert(strip_matching(s, needle) =~= s + seq!['\n'] + Seq::<char>::empty());
                lemma_strip_concat(s, Seq::<char>::empty(), needle);
                assert(strip_matching(strip_matching(s, needle), needle) =~= strip_matching(
                    s,
                    needle,
                ));
            }
        }
    }
}

/// The re-export statement appended to a message-definition file to pull in
/// everything from its service-stub module.
pub open spec fn reexport_line(module: Seq<char>) -> Seq<char> {
    "\npub use super::"@ + module + "::*;\n"@
}

/// Appends to `content` exactly one re-export line pulling in everything
/// from the module `module`; everything already in `content` is kept
/// unchanged, in place.
pub fn append_reexport(content: &str, module: &str) -> (r: String)
    ensures
        r@ == content@ + reexport_line(module@),
{
    let mut r = String::from_str(content);
    r.append("\npub use super::");
    r.append(module);
    r.append("::*;\n");
    proof {
        assert(r@ =~= content@ + reexport_line(module@));
    }
    r
}

/// Tests whether `name` names a generated source file (extension `.rs`).
pub fn is_generated_source(name: &str) -> (r: bool)
    ensures
        r == ends_with(name@, ".rs"@),
{
    has_suffix(name, ".rs")
}

/// Tests whether `name` carries the service-stub suffix.
pub fn is_stub_file(name: &str) -> (r: bool)
    ensures
        r == ends_with(name@, "_grpc.rs"@),
{
    has_suffix(name, "_grpc.rs")
}

/// The message-definition sibling of a service-stub file: the stub suffix is
/// stripped and the plain source extension put back. Returns `None` when
/// `name` does not carry the stub suffix.
pub fn stub_sibling(name: &str) -> (r: Option<String>)
    ensures
        r is Some <==> ends_with(name@, "_grpc.rs"@),
        r is Some ==> r->0@ == name@.take(name@.len() - "_grpc.rs"@.len()) + ".rs"@,
{
    if !has_suffix(name, "_grpc.rs") {
        return None;
    }
    proof {
        reveal_strlit("_grpc.rs");
    }
    let len = name.unicode_len();
    let base = name.substring_char(0, len - 8);
    let mut r = String::from_str(base);
    r.append(".rs");
    proof {
        assert(r@ =~= name@.take(name@.len() - "_grpc.rs"@.len()) + ".rs"@);
    }
    Some(r)
}

/// The module named by a generated file: its name without the source
/// extension. Returns `None` when `name` lacks the extension.
pub fn module_of(name: &str) -> (r: Option<String>)
    ensures
        r is Some <==> ends_with(name@, ".rs"@),
        r is Some ==> r->0@ == name@.take(name@.len() - ".rs"@.len()),
{
    if !has_suffix(name, ".rs") {
        return None;
    }
    proof {
        reveal_strlit(".rs");
    }
    let len = name.unicode_len();
    let base = name.substring_char(0, len - 3);
    proof {
        assert(base@ =~= name@.take(name@.len() - ".rs"@.len()));
    }
    Some(String::from_str(base))
}

/// Copies `content`, leaving out every line that references the generator
/// runtime's version-equality check.
pub fn strip_version_lines(content: &str) -> (r: String)
    ensures
        r@ == strip_matching(content@, "::protobuf::VERSION"@),
{
    remove_match(content, "::protobuf::VERSION")
}

} // verus!
