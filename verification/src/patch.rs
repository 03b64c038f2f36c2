//! The naming patch engine: ordered, exact literal substitutions applied to
//! the text of generated files.
//!
//! A substitution rewrites every non-overlapping occurrence of its old
//! literal, scanning left to right; text introduced by the replacement is
//! never rescanned by the same substitution. The substitutions of one rule
//! are applied strictly in listed order, so a later entry may rely on an
//! earlier one having already fired.

use vstd::prelude::*;
use vstd::string::*;

use crate::text::matches_at;
use crate::text::match_at;
use crate::text::begins_with;
use crate::text::has_prefix;

verus! {

/// One naming patch rule: the file it rewrites and the substitutions to
/// apply there, in order.
pub struct PatchRule {
    pub target_file: String,
    pub substitutions: Vec<(String, String)>,
}

/// Replaces every non-overlapping occurrence of `old_lit` in `s` by
/// `new_lit`, scanning left to right and never rescanning replaced text.
pub open spec fn replace_chars(s: Seq<char>, old_lit: Seq<char>, new_lit: Seq<char>) -> Seq<char>
    decreases s.len(),
{
    if old_lit.len() == 0 || s.len() < old_lit.len() {
        s
    } else if s.subrange(0, old_lit.len() as int) == old_lit {
        new_lit + replace_chars(s.skip(old_lit.len() as int), old_lit, new_lit)
    } else {
        seq![s[0]] + replace_chars(s.skip(1), old_lit, new_lit)
    }
}

/// Applies the substitutions in `subs` to `s`, first entry first.
pub open spec fn apply_substitutions_seq(
    s: Seq<char>,
    subs: Seq<(Seq<char>, Seq<char>)>,
) -> Seq<char>
    decreases subs.len(),
{
    if subs.len() == 0 {
        s
    } else {
        apply_substitutions_seq(replace_chars(s, subs[0].0, subs[0].1), subs.skip(1))
    }
}

/// The character sequences of a list of substitution pairs.
pub open spec fn subs_view(subs: Seq<(String, String)>) -> Seq<(Seq<char>, Seq<char>)> {
    subs.map_values(|p: (String, String)| (p.0@, p.1@))
}

/// Every old literal of the list is nonempty.
pub open spec fn subs_wf(subs: Seq<(Seq<char>, Seq<char>)>) -> bool {
    forall|j: int| 0 <= j < subs.len() ==> (#[trigger] subs[j]).0.len() >= 1
}

/// Replaces every non-overlapping occurrence of `old_lit` in `s` by
/// `new_lit`, left to right.
pub fn replace_literal(s: &str, old_lit: &str, new_lit: &str) -> (r: String)
    requires
        old_lit@.len() >= 1,
    ensures
        r@ == replace_chars(s@, old_lit@, new_lit@),
{
    let s_len = s.unicode_len();
    let old_len = old_lit.unicode_len();
    let mut r = String::new();
    let mut i: usize = 0;
    proof {
        assert(s@.skip(0) =~= s@);
        assert(Seq::<char>::empty() + replace_chars(s@, old_lit@, new_lit@) =~= replace_chars(
            s@,
            old_lit@,
            new_lit@,
        ));
    }
    while i < s_len
        invariant
            s_len == s@.len(),
            old_len == old_lit@.len(),
            1 <= old_len,
            i <= s_len,
            replace_chars(s@, old_lit@, new_lit@) == r@ + replace_chars(
                s@.skip(i as int),
                old_lit@,
                new_lit@,
            ),
        decreases s_len - i,
    {
        let ghost t = s@.skip(i as int);
        let ghost prev = r@;
        if match_at(s, old_lit, i) {
            proof {
                assert(t.subrange(0, old_lit@.len() as int) =~= s@.subrange(
                    i as int,
                    i + old_lit@.len(),
                ));
                assert(t.skip(old_lit@.len() as int) =~= s@.skip(i + old_len));
            }
            r.append(new_lit);
            proof {
                assert(prev + (new_lit@ + replace_chars(s@.skip(i + old_len), old_lit@, new_lit@))
                    =~= r@ + replace_chars(s@.skip(i + old_len), old_lit@, new_lit@));
            }
            i += old_len;
        } else {
            let ch = s.substring_char(i, i + 1);
            proof {
                assert(ch@ =~= seq![t[0]]);
                if t.len() >= old_len {
                    assert(t.subrange(0, old_lit@.len() as int) =~= s@.subrange(
                        i as int,
                        i + old_lit@.len(),
                    ));
                    assert(t.subrange(0, old_lit@.len() as int) != old_lit@);
                }
                assert(t.skip(1) =~= s@.skip(i + 1));
                if t.len() < old_len {
                    assert(replace_chars(t, old_lit@, new_lit@) == t);
                    assert(replace_chars(t.skip(1), old_lit@, new_lit@) == t.skip(1));
                    assert(t =~= seq![t[0]] + t.skip(1));
                }
            }
            r.append(ch);
            proof {
                assert(prev + (seq![t[0]] + replace_chars(s@.skip(i + 1), old_lit@, new_lit@))
                    =~= r@ + replace_chars(s@.skip(i + 1), old_lit@, new_lit@));
            }
            i += 1;
        }
    }
    proof {
        assert(s@.skip(s_len as int) =~= Seq::<char>::empty());
        assert(replace_chars(Seq::<char>::empty(), old_lit@, new_lit@)
            == Seq::<char>::empty());
        assert(r@ + Seq::<char>::empty() =~= r@);
    }
    r
}

/// Applies an ordered substitution list to `content`, first entry first.
pub fn apply_substitutions(content: &str, subs: &Vec<(String, String)>) -> (r: String)
    requires
        subs_wf(subs_view(subs@)),
    ensures
        r@ == apply_substitutions_seq(content@, subs_view(subs@)),
{
    let ghost v = subs_view(subs@);
    let mut cur = String::from_str(content);
    let mut i: usize = 0;
    proof {
        assert(v.skip(0) =~= v);
    }
    while i < subs.len()
        invariant
            v == subs_view(subs@),
            subs_wf(v),
            v.len() == subs@.len(),
            i <= subs.len(),
            apply_substitutions_seq(content@, v) == apply_substitutions_seq(
                cur@,
                v.skip(i as int),
            ),
        decreases subs.len() - i,
    {
        let pair = &subs[i];
        proof {
            assert(v[i as int] == (subs@[i as int].0@, subs@[i as int].1@));
            assert(v.skip(i as int)[0] == v[i as int]);
            assert(v.skip(i as int).skip(1) =~= v.skip(i + 1));
        }
        cur = replace_literal(cur.as_str(), pair.0.as_str(), pair.1.as_str());
        i += 1;
    }
    proof {
        assert(v.skip(subs@.len() as int).len() == 0);
    }
    cur
}

/// A rule is applied only while the target it belongs to is processed:
/// exactly when its file lies under that target's primary output directory.
pub fn rule_applies(rule: &PatchRule, dir: &str) -> (r: bool)
    ensures
        r == begins_with(rule.target_file@, dir@),
{
    has_prefix(rule.target_file.as_str(), dir)
}

/// The static naming patch table: aligns the enum names, the enum variant
/// names and the formatter attribute of the generated health file with the
/// target naming convention. The order of the substitutions is significant
/// and preserved exactly.
pub fn naming_patch() -> (r: Vec<PatchRule>)
    ensures
        r@.len() == 1,
        r@[0].target_file@ == "health/src/proto/protobuf/health.rs"@,
        subs_view(r@[0].substitutions@) =~= seq![
            ("HealthCheckResponse_ServingStatus"@, "ServingStatus"@),
            ("NOT_SERVING"@, "NotServing"@),
            ("SERVICE_UNKNOWN"@, "ServiceUnknown"@),
            ("UNKNOWN"@, "Unknown"@),
            ("SERVING"@, "Serving"@),
            ("rustfmt_skip"@, "rustfmt::skip"@),
        ],
        subs_wf(subs_view(r@[0].substitutions@)),
{
    let mut subs: Vec<(String, String)> = Vec::new();
    subs.push((
        String::from_str("HealthCheckResponse_ServingStatus"),
        String::from_str("ServingStatus"),
    ));
    subs.push((String::from_str("NOT_SERVING"), String::from_str("NotServing")));
    subs.push((String::from_str("SERVICE_UNKNOWN"), String::from_str("ServiceUnknown")));
    subs.push((String::from_str("UNKNOWN"), String::from_str("Unknown")));
    subs.push((String::from_str("SERVING"), String::from_str("Serving")));
    subs.push((String::from_str("rustfmt_skip"), String::from_str("rustfmt::skip")));
    let rule = PatchRule {
        target_file: String::from_str("health/src/proto/protobuf/health.rs"),
        substitutions: subs,
    };
    let mut r: Vec<PatchRule> = Vec::new();
    r.push(rule);
    proof {
        reveal_strlit("HealthCheckResponse_ServingStatus");
        reveal_strlit("NOT_SERVING");
        reveal_strlit("SERVICE_UNKNOWN");
        reveal_strlit("UNKNOWN");
        reveal_strlit("SERVING");
        reveal_strlit("rustfmt_skip");
        assert(subs_view(r@[0].substitutions@) =~= seq![
            ("HealthCheckResponse_ServingStatus"@, "ServingStatus"@),
            ("NOT_SERVING"@, "NotServing"@),
            ("SERVICE_UNKNOWN"@, "ServiceUnknown"@),
            ("UNKNOWN"@, "Unknown"@),
            ("SERVING"@, "Serving"@),
            ("rustfmt_skip"@, "rustfmt::skip"@),
        ]);
    }
    r
}

} // verus!
