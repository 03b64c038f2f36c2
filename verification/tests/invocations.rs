use xtask::invoke::exec_outcome;
use xtask::invoke::run_outcome;
use xtask::invoke::Invocation;
use xtask::invoke::RunResult;
use xtask::plans::alternate_codegen_invocation;
use xtask::plans::bindgen;
use xtask::plans::build_alternate_generator;
use xtask::plans::build_stub_plugin;
use xtask::plans::cargo_program;
use xtask::plans::clang_lint;
use xtask::plans::join_comma;
use xtask::plans::refresh_link_package;
use xtask::plans::stub_codegen_invocation;

fn args(inv: &Invocation) -> Vec<&str> {
    inv.args.iter().map(|s| s.as_str()).collect()
}

#[test]
fn exec_outcome_policy() {
    assert_eq!(exec_outcome(&RunResult::Exited(0)), None);
    assert_eq!(exec_outcome(&RunResult::Exited(3)), Some(3));
    assert_eq!(exec_outcome(&RunResult::SpawnFailed), Some(-1));
    assert_eq!(exec_outcome(&RunResult::Signaled), Some(-1));
}

#[test]
fn fatal_exit_code_three_propagates_and_stops() {
    // The second invocation fails with exit code 3: the run reports 3 and
    // the third invocation is never attempted.
    let results = vec![RunResult::Exited(0), RunResult::Exited(3), RunResult::Exited(0)];
    assert_eq!(run_outcome(&results), (2, Some(3)));
}

#[test]
fn clean_run_attempts_everything() {
    let results = vec![RunResult::Exited(0), RunResult::Exited(0)];
    assert_eq!(run_outcome(&results), (2, None));
}

#[test]
fn signal_death_uses_sentinel_code() {
    let results = vec![RunResult::Signaled];
    assert_eq!(run_outcome(&results), (1, Some(-1)));
}

#[test]
fn bindgen_plan() {
    let inv = bindgen("cargo".to_string());
    assert_eq!(inv.program, "cargo");
    assert_eq!(inv.current_dir.as_deref(), Some("grpc-sys"));
    assert_eq!(args(&inv), vec!["build", "-p", "grpcio-sys", "--features", "_gen-bindings"]);
}

#[test]
fn clang_lint_plan() {
    let invs = clang_lint();
    assert_eq!(invs.len(), 2);
    assert_eq!(invs[0].program, "clang-tidy");
    assert!(invs[0].current_dir.is_none());
    assert_eq!(
        args(&invs[0]),
        vec!["grpc-sys/grpc_wrap.cc", "--", "-Igrpc-sys/grpc/include", "-x", "c++", "-std=c++11"]
    );
    assert_eq!(invs[1].program, "clang-format");
    assert_eq!(args(&invs[1]), vec!["-i", "grpc-sys/grpc_wrap.cc"]);
}

#[test]
fn refresh_link_package_plan() {
    let invs = refresh_link_package("cargo".to_string());
    assert_eq!(invs.len(), 2);
    assert_eq!(invs[0].program, "cargo");
    assert_eq!(invs[0].current_dir.as_deref(), Some("grpc-sys"));
    assert_eq!(args(&invs[0]), vec!["build", "-p", "grpcio-sys", "--features", "_list-package"]);
    assert_eq!(invs[1].program, "rustfmt");
    assert_eq!(args(&invs[1]), vec!["grpc-sys/link-deps.rs"]);
}

#[test]
fn stub_plugin_build_plan() {
    let inv = build_stub_plugin("cargo".to_string());
    assert_eq!(inv.program, "cargo");
    assert!(inv.current_dir.is_none());
    assert_eq!(args(&inv), vec!["build", "-p", "grpcio-compiler"]);
}

#[test]
fn stub_codegen_plan() {
    let inputs = vec!["a.proto".to_string(), "b.proto".to_string()];
    let inv = stub_codegen_invocation("protoc", "proto/proto", "proto/src/proto/protobuf/testing", &inputs);
    assert_eq!(inv.program, "protoc");
    assert!(inv.current_dir.is_none());
    assert_eq!(
        args(&inv),
        vec![
            "-Iproto/proto",
            "--grpc_out=proto/src/proto/protobuf/testing",
            "--plugin=protoc-gen-grpc=./target/debug/grpc_rust_plugin",
            "a.proto",
            "b.proto",
        ]
    );
}

#[test]
fn alternate_generator_build_plan() {
    let inv = build_alternate_generator("cargo".to_string());
    assert_eq!(inv.program, "cargo");
    assert_eq!(inv.current_dir.as_deref(), Some("compiler"));
    assert_eq!(
        args(&inv),
        vec!["build", "--no-default-features", "--features", "prost-codec", "--bin",
            "grpc_rust_prost"]
    );
}

#[test]
fn alternate_codegen_plan() {
    let inputs = vec!["x.proto".to_string(), "y.proto".to_string()];
    let inv = alternate_codegen_invocation("proto/proto", "out", &inputs);
    assert_eq!(inv.program, "target/debug/grpc_rust_prost");
    assert_eq!(
        args(&inv),
        vec!["--protos=x.proto,y.proto", "--includes=proto/proto", "--out-dir=out"]
    );
}

#[test]
fn comma_join() {
    let none: Vec<String> = Vec::new();
    assert_eq!(join_comma(&none), "");
    assert_eq!(join_comma(&vec!["one".to_string()]), "one");
    assert_eq!(
        join_comma(&vec!["a".to_string(), "b".to_string(), "c".to_string()]),
        "a,b,c"
    );
}

#[test]
fn cargo_program_decision() {
    assert_eq!(cargo_program(Some("cargo".to_string())), Ok("cargo".to_string()));
    assert_eq!(cargo_program(None), Err(1));
}
