use xtask::resolve::resolve;

fn strings(items: &[&str]) -> Vec<String> {
    items.iter().map(|s| s.to_string()) .collect()
}

fn views(items: &Vec<String>) -> Vec<&str> {
    items.iter().map(|s| s.as_str()).collect()
}

#[test]
fn resolve_sorts_lexicographically() {
    let listing = strings(&[
        "proto/proto/grpc/testing/services.proto",
        "proto/proto/grpc/testing/control.proto",
        "proto/proto/grpc/testing/messages.proto",
    ]);
    let resolved = resolve(&listing);
    assert_eq!(
        views(&resolved),
        vec![
            "proto/proto/grpc/testing/control.proto",
            "proto/proto/grpc/testing/messages.proto",
            "proto/proto/grpc/testing/services.proto",
        ]
    );
}

#[test]
fn resolve_is_order_independent() {
    let one = strings(&["b.proto", "a.proto", "c.proto", "notes.txt"]);
    let two = strings(&["notes.txt", "c.proto", "b.proto", "a.proto"]);
    assert_eq!(views(&resolve(&one)), views(&resolve(&two)));
    assert_eq!(views(&resolve(&one)), vec!["a.proto", "b.proto", "c.proto"]);
}

#[test]
fn resolve_deduplicates() {
    let listing = strings(&["dir/x.proto", "dir/y.proto", "dir/x.proto", "dir/x.proto"]);
    assert_eq!(views(&resolve(&listing)), vec!["dir/x.proto", "dir/y.proto"]);
}

#[test]
fn resolve_filters_non_schema_entries() {
    let listing = strings(&[
        "dir/readme.md",
        "dir/x.proto",
        "dir/.proto",
        "dir/protofile",
        "dir/y.proto.bak",
    ]);
    assert_eq!(views(&resolve(&listing)), vec!["dir/x.proto"]);
}

#[test]
fn resolve_empty_listing() {
    let listing: Vec<String> = Vec::new();
    assert!(resolve(&listing).is_empty());
}
