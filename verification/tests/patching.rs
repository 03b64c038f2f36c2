use xtask::patch::apply_substitutions;
use xtask::patch::naming_patch;
use xtask::patch::replace_literal;
use xtask::patch::rule_applies;

#[test]
fn replace_all_occurrences_left_to_right() {
    let r = replace_literal("aaa b aaa", "aa", "X");
    assert_eq!(r, "Xa b Xa");
}

#[test]
fn replace_does_not_rescan_replacement() {
    // The replacement text contains the old literal; it must not fire again.
    let r = replace_literal("ab", "ab", "ab-ab");
    assert_eq!(r, "ab-ab");
}

#[test]
fn replace_without_occurrence_is_identity() {
    let r = replace_literal("no change here", "absent", "X");
    assert_eq!(r, "no change here");
}

#[test]
fn naming_patch_table_shape() {
    let rules = naming_patch();
    assert_eq!(rules.len(), 1);
    assert_eq!(rules[0].target_file, "health/src/proto/protobuf/health.rs");
    let subs: Vec<(&str, &str)> = rules[0]
        .substitutions
        .iter()
        .map(|p| (p.0.as_str(), p.1.as_str()))
        .collect();
    assert_eq!(
        subs,
        vec![
            ("HealthCheckResponse_ServingStatus", "ServingStatus"),
            ("NOT_SERVING", "NotServing"),
            ("SERVICE_UNKNOWN", "ServiceUnknown"),
            ("UNKNOWN", "Unknown"),
            ("SERVING", "Serving"),
            ("rustfmt_skip", "rustfmt::skip"),
        ]
    );
}

#[test]
fn patch_ordering_enum_rename_chain() {
    // A synthetic file holding the whole enum-rename chain: substitutions
    // are applied strictly left to right, once each, so text introduced by
    // an earlier substitution is not rewritten by a later, broader one.
    let content = "enum HealthCheckResponse_ServingStatus {\n\
                   UNKNOWN,\n\
                   SERVING,\n\
                   NOT_SERVING,\n\
                   SERVICE_UNKNOWN,\n\
                   }\n\
                   // rustfmt_skip\n";
    let rules = naming_patch();
    let patched = apply_substitutions(content, &rules[0].substitutions);
    assert_eq!(
        patched,
        "enum ServingStatus {\n\
         Unknown,\n\
         Serving,\n\
         NotServing,\n\
         ServiceUnknown,\n\
         }\n\
         // rustfmt::skip\n"
    );
}

#[test]
fn patch_rules_are_scoped_to_their_output_directory() {
    let rules = naming_patch();
    assert!(rule_applies(&rules[0], "health/src/proto/protobuf/"));
    assert!(!rule_applies(&rules[0], "proto/src/proto/protobuf/testing"));
}

#[test]
fn patch_order_is_significant() {
    // NOT_SERVING fires before the broader SERVING; swapping them would
    // leave "NOT_Serving" behind.
    let rules = naming_patch();
    let r = apply_substitutions("NOT_SERVING SERVING", &rules[0].substitutions);
    assert_eq!(r, "NotServing Serving");
}
