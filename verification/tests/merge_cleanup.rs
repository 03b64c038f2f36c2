use xtask::cleanup::append_reexport;
use xtask::cleanup::is_generated_source;
use xtask::cleanup::is_stub_file;
use xtask::cleanup::module_of;
use xtask::cleanup::remove_match;
use xtask::cleanup::strip_version_lines;
use xtask::cleanup::stub_sibling;

#[test]
fn version_lines_are_stripped() {
    let content = "// header\n\
                   const _: () = ::protobuf::VERSION_CHECK;\n\
                   pub struct Msg {}\n\
                   assert_eq!(::protobuf::VERSION, \"2.8.1\");\n\
                   // footer\n";
    let cleaned = strip_version_lines(content);
    assert_eq!(cleaned, "// header\npub struct Msg {}\n// footer\n");
    assert!(!cleaned.contains("::protobuf::VERSION"));
}

#[test]
fn stripping_keeps_other_lines_in_order() {
    let cleaned = remove_match("one\ntwo x\nthree\nfour x\nfive", "x");
    assert_eq!(cleaned, "one\nthree\nfive\n");
}

#[test]
fn stripping_twice_changes_nothing() {
    let content = "keep\ndrop ::protobuf::VERSION\nkeep too\n";
    let once = strip_version_lines(content);
    let twice = strip_version_lines(&once);
    assert_eq!(once, twice);
}

#[test]
fn stripping_empty_content() {
    assert_eq!(remove_match("", "anything"), "");
}

#[test]
fn merge_appends_exactly_one_reexport_line() {
    let original = "// message definitions\npub struct HealthCheckRequest {}\n";
    let merged = append_reexport(original, "health_grpc");
    assert_eq!(
        merged,
        "// message definitions\npub struct HealthCheckRequest {}\n\npub use super::health_grpc::*;\n"
    );
    assert!(merged.starts_with(original));
    assert_eq!(merged.matches("pub use super::health_grpc::*;").count(), 1);
}

#[test]
fn stub_sibling_names() {
    assert_eq!(stub_sibling("health_grpc.rs").as_deref(), Some("health.rs"));
    assert_eq!(stub_sibling("health.rs"), None);
    assert_eq!(stub_sibling("messages_grpc.rs").as_deref(), Some("messages.rs"));
}

#[test]
fn module_names() {
    assert_eq!(module_of("health_grpc.rs").as_deref(), Some("health_grpc"));
    assert_eq!(module_of("health.rs").as_deref(), Some("health"));
    assert_eq!(module_of("health.txt"), None);
}

#[test]
fn generated_source_and_stub_detection() {
    assert!(is_generated_source("health.rs"));
    assert!(is_generated_source("health_grpc.rs"));
    assert!(!is_generated_source("health.proto"));
    assert!(is_stub_file("health_grpc.rs"));
    assert!(!is_stub_file("health.rs"));
}
