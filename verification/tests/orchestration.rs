use xtask::orchestrate::alternate_out_dir;
use xtask::orchestrate::generation_targets;
use xtask::orchestrate::package_dir;
use xtask::orchestrate::parse_subcommand;
use xtask::orchestrate::primary_out_dir;
use xtask::orchestrate::Subcommand;

#[test]
fn target_table() {
    let targets = generation_targets();
    assert_eq!(targets.len(), 4);

    assert_eq!(targets[0].include_root, "grpc-sys/grpc/src/proto");
    let p0: Vec<&str> = targets[0].packages.iter().map(|s| s.as_str()).collect();
    assert_eq!(p0, vec!["grpc/health/v1"]);
    assert_eq!(targets[0].output_root, "health/src/proto");
    assert_eq!(targets[0].namespace_label, "");

    assert_eq!(targets[1].include_root, "proto/proto");
    let p1: Vec<&str> = targets[1].packages.iter().map(|s| s.as_str()).collect();
    assert_eq!(p1, vec!["grpc/testing"]);
    assert_eq!(targets[1].output_root, "proto/src/proto");
    assert_eq!(targets[1].namespace_label, "testing");

    let p2: Vec<&str> = targets[2].packages.iter().map(|s| s.as_str()).collect();
    assert_eq!(p2, vec!["grpc/example"]);
    assert_eq!(targets[2].namespace_label, "example");

    let p3: Vec<&str> = targets[3].packages.iter().map(|s| s.as_str()).collect();
    assert_eq!(p3, vec!["google/rpc"]);
    assert_eq!(targets[3].namespace_label, "google/rpc");
}

#[test]
fn output_directory_layout() {
    assert_eq!(primary_out_dir("health/src/proto", ""), "health/src/proto/protobuf/");
    assert_eq!(
        primary_out_dir("proto/src/proto", "testing"),
        "proto/src/proto/protobuf/testing"
    );
    assert_eq!(
        alternate_out_dir("proto/src/proto", "google/rpc"),
        "proto/src/proto/prost/google/rpc"
    );
    assert_eq!(package_dir("proto/proto", "grpc/testing"), "proto/proto/grpc/testing");
}

#[test]
fn subcommand_dispatch() {
    assert_eq!(parse_subcommand("bindgen"), Subcommand::Bindgen);
    assert_eq!(parse_subcommand("submodule"), Subcommand::Submodule);
    assert_eq!(parse_subcommand("clang-lint"), Subcommand::ClangLint);
    assert_eq!(parse_subcommand("codegen"), Subcommand::Codegen);
    assert_eq!(parse_subcommand("refresh-package"), Subcommand::RefreshPackage);
    assert_eq!(parse_subcommand("anything-else"), Subcommand::Help);
    assert_eq!(parse_subcommand(""), Subcommand::Help);
}
