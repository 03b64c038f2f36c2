//! The orchestrator's fixed configuration: the table of generation targets,
//! the per-target output directory layout, and the dispatch of the
//! command-line subcommands.

use vstd::prelude::*;
use vstd::string::*;

use crate::text::str_eq;

verus! {

/// One configured combination of include root, package subpaths, output
/// root and namespace label, processed as a unit.
pub struct GenerationTarget {
    pub include_root: String,
    pub packages: Vec<String>,
    pub output_root: String,
    pub namespace_label: String,
}

/// The subcommands the tool accepts; anything else shows the help text.
#[derive(Clone, Copy, PartialEq, Eq, Structural, Debug)]
pub enum Subcommand {
    Bindgen,
    Submodule,
    ClangLint,
    Codegen,
    RefreshPackage,
    Help,
}

/// Which subcommand a command-line word selects.
pub open spec fn subcommand_of(s: Seq<char>) -> Subcommand {
    if s == "bindgen"@ {
        Subcommand::Bindgen
    } else if s == "submodule"@ {
        Subcommand::Submodule
    } else if s == "clang-lint"@ {
        Subcommand::ClangLint
    } else if s == "codegen"@ {
        Subcommand::Codegen
    } else if s == "refresh-package"@ {
        Subcommand::RefreshPackage
    } else {
        Subcommand::Help
    }
}

/// Decides which subcommand to run from the command-line word.
pub fn parse_subcommand(arg: &str) -> (r: Subcommand)
    ensures
        r == subcommand_of(arg@),
{
    if str_eq(arg, "bindgen") {
        Subcommand::Bindgen
    } else if str_eq(arg, "submodule") {
        Subcommand::Submodule
    } else if str_eq(arg, "clang-lint") {
        Subcommand::ClangLint
    } else if str_eq(arg, "codegen") {
        Subcommand::Codegen
    } else if str_eq(arg, "refresh-package") {
        Subcommand::RefreshPackage
    } else {
        Subcommand::Help
    }
}

/// The directory listed for one package subpath of a target.
pub fn package_dir(include_root: &str, package: &str) -> (r: String)
    ensures
        r@ == include_root@ + "/"@ + package@,
{
    let mut r = String::from_str(include_root);
    r.append("/");
    r.append(package);
    proof {
        assert(r@ =~= include_root@ + "/"@ + package@);
    }
    r
}

/// Where the primary codec's output of a target goes.
pub fn primary_out_dir(output_root: &str, namespace_label: &str) -> (r: String)
    ensures
        r@ == output_root@ + "/protobuf/"@ + namespace_label@,
{
    let mut r = String::from_str(output_root);
    r.append("/protobuf/");
    r.append(namespace_label);
    proof {
        assert(r@ =~= output_root@ + "/protobuf/"@ + namespace_label@);
    }
    r
}

/// Where the alternate codec's output of a target goes.
pub fn alternate_out_dir(output_root: &str, namespace_label: &str) -> (r: String)
    ensures
        r@ == output_root@ + "/prost/"@ + namespace_label@,
{
    let mut r = String::from_str(output_root);
    r.append("/prost/");
    r.append(namespace_label);
    proof {
        assert(r@ =~= output_root@ + "/prost/"@ + namespace_label@);
    }
    r
}

/// The fixed table of generation targets, in the order they are processed.
pub fn generation_targets() -> (r: Vec<GenerationTarget>)
    ensures
        r@.len() == 4,
        r@[0].include_root@ == "grpc-sys/grpc/src/proto"@,
        r@[0].packages.deep_view() == seq!["grpc/health/v1"@],
        r@[0].output_root@ == "health/src/proto"@,
        r@[0].namespace_label@ == ""@,
        r@[1].include_root@ == "proto/proto"@,
        r@[1].packages.deep_view() == seq!["grpc/testing"@],
        r@[1].output_root@ == "proto/src/proto"@,
        r@[1].namespace_label@ == "testing"@,
        r@[2].include_root@ == "proto/proto"@,
        r@[2].packages.deep_view() == seq!["grpc/example"@],
        r@[2].output_root@ == "proto/src/proto"@,
        r@[2].namespace_label@ == "example"@,
        r@[3].include_root@ == "proto/proto"@,
        r@[3].packages.deep_view() == seq!["google/rpc"@],
        r@[3].output_root@ == "proto/src/proto"@,
        r@[3].namespace_label@ == "google/rpc"@,
{
    let mut r: Vec<GenerationTarget> = Vec::new();
    let mut p0: Vec<String> = Vec::new();
    p0.push(String::from_str("grpc/health/v1"));
    proof {
        assert(p0.deep_view() =~= seq!["grpc/health/v1"@]);
    }
    r.push(GenerationTarget {
        include_root: String::from_str("grpc-sys/grpc/src/proto"),
        packages: p0,
        output_root: String::from_str("health/src/proto"),
        namespace_label: String::from_str(""),
    });
    let mut p1: Vec<String> = Vec::new();
    p1.push(String::from_str("grpc/testing"));
    proof {
        assert(p1.deep_view() =~= seq!["grpc/testing"@]);
    }
    r.push(GenerationTarget {
        include_root: String::from_str("proto/proto"),
        packages: p1,
        output_root: String::from_str("proto/src/proto"),
        namespace_label: String::from_str("testing"),
    });
    let mut p2: Vec<String> = Vec::new();
    p2.push(String::from_str("grpc/example"));
    proof {
        assert(p2.deep_view() =~= seq!["grpc/example"@]);
    }
    r.push(GenerationTarget {
        include_root: String::from_str("proto/proto"),
        packages: p2,
        output_root: String::from_str("proto/src/proto"),
        namespace_label: String::from_str("example"),
    });
    let mut p3: Vec<String> = Vec::new();
    p3.push(String::from_str("google/rpc"));
    proof {
        assert(p3.deep_view() =~= seq!["google/rpc"@]);
    }
    r.push(GenerationTarget {
        include_root: String::from_str("proto/proto"),
        packages: p3,
        output_root: String::from_str("proto/src/proto"),
        namespace_label: String::from_str("google/rpc"),
    });
    r
}

} // verus!
