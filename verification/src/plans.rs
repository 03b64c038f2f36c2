//! Builders for every external invocation of the pipeline: the build tool
//! runs, the two codec drivers' command lines, and the standalone
//! subcommands. Each builder pins the exact program, working directory and
//! argument list, so the surrounding binary only has to start what was
//! planned.

use vstd::prelude::*;
use vstd::string::*;

use crate::invoke::Invocation;

verus! {

/// The input list of the alternate generator, comma-joined.
pub open spec fn joined_comma(items: Seq<Seq<char>>) -> Seq<char>
    decreases items.len(),
{
    if items.len() == 0 {
        Seq::empty()
    } else if items.len() == 1 {
        items[0]
    } else {
        items[0] + seq![','] + joined_comma(items.skip(1))
    }
}

/// Appending one more item extends the joined list with a comma separator,
/// unless it is the first.
proof fn lemma_joined_push(items: Seq<Seq<char>>, y: Seq<char>)
    ensures
        joined_comma(items.push(y)) == if items.len() == 0 {
            y
        } else {
            joined_comma(items) + seq![','] + y
        },
    decreases items.len(),
{
    let p = items.push(y);
    if items.len() == 0 {
        assert(p.len() == 1);
        assert(p[0] == y);
    } else {
        assert(p[0] == items[0]);
        assert(p.skip(1) =~= items.skip(1).push(y));
        lemma_joined_push(items.skip(1), y);
        if items.len() == 1 {
            assert(items.skip(1).len() == 0);
            assert(joined_comma(p) == items[0] + seq![','] + y);
            assert(joined_comma(items) == items[0]);
        } else {
            assert(joined_comma(p) == items[0] + seq![','] + (joined_comma(items.skip(1))
                + seq![','] + y));
            assert(items[0] + seq![','] + (joined_comma(items.skip(1)) + seq![','] + y) =~= (
            items[0] + seq![','] + joined_comma(items.skip(1))) + seq![','] + y);
        }
    }
}

/// Concatenates two strings.
fn concat2(a: &str, b: &str) -> (r: String)
    ensures
        r@ == a@ + b@,
{
    let mut r = String::from_str(a);
    r.append(b);
    r
}

/// Joins the items with single commas, in order.
pub fn join_comma(items: &Vec<String>) -> (r: String)
    ensures
        r@ == joined_comma(items.deep_view()),
{
    let ghost dv = items.deep_view();
    let mut r = String::new();
    let mut i: usize = 0;
    proof {
        assert(dv.take(0) =~= Seq::<Seq<char>>::empty());
    }
    while i < items.len()
        invariant
            dv == items.deep_view(),
            dv.len() == items.len(),
            i <= items.len(),
            r@ == joined_comma(dv.take(i as int)),
        decreases items.len() - i,
    {
        if i > 0 {
            r.append(",");
        }
        r.append(items[i].as_str());
        proof {
            reveal_strlit(",");
            assert(","@ =~= seq![',']);
            assert(dv.take(i + 1) =~= dv.take(i as int).push(dv[i as int]));
            lemma_joined_push(dv.take(i as int), dv[i as int]);
            if i > 0 {
                assert(r@ =~= joined_comma(dv.take(i as int)) + seq![','] + dv[i as int]);
            } else {
                assert(dv.take(0).len() == 0);
            }
        }
        i += 1;
    }
    proof {
        assert(dv.take(dv.len() as int) =~= dv);
    }
    r
}

/// Plans the build of the binding generator for the native sys package.
pub fn bindgen(cargo: String) -> (r: Invocation)
    ensures
        r.program == cargo,
        r.current_dir is Some && r.current_dir->0@ == "grpc-sys"@,
        r.args.deep_view() == seq!["build"@, "-p"@, "grpcio-sys"@, "--features"@,
            "_gen-bindings"@],
{
    let mut args: Vec<String> = Vec::new();
    args.push(String::from_str("build"));
    args.push(String::from_str("-p"));
    args.push(String::from_str("grpcio-sys"));
    args.push(String::from_str("--features"));
    args.push(String::from_str("_gen-bindings"));
    proof {
        assert(args.deep_view() =~= seq!["build"@, "-p"@, "grpcio-sys"@, "--features"@,
            "_gen-bindings"@]);
    }
    Invocation { program: cargo, current_dir: Some(String::from_str("grpc-sys")), args }
}

/// Plans the two linter runs over the native wrapper source: a tidy pass,
/// then an in-place format.
pub fn clang_lint() -> (r: Vec<Invocation>)
    ensures
        r@.len() == 2,
        r@[0].program@ == "clang-tidy"@,
        r@[0].current_dir is None,
        r@[0].args.deep_view() == seq!["grpc-sys/grpc_wrap.cc"@, "--"@,
            "-Igrpc-sys/grpc/include"@, "-x"@, "c++"@, "-std=c++11"@],
        r@[1].program@ == "clang-format"@,
        r@[1].current_dir is None,
        r@[1].args.deep_view() == seq!["-i"@, "grpc-sys/grpc_wrap.cc"@],
{
    let mut tidy_args: Vec<String> = Vec::new();
    tidy_args.push(String::from_str("grpc-sys/grpc_wrap.cc"));
    tidy_args.push(String::from_str("--"));
    tidy_args.push(String::from_str("-Igrpc-sys/grpc/include"));
    tidy_args.push(String::from_str("-x"));
    tidy_args.push(String::from_str("c++"));
    tidy_args.push(String::from_str("-std=c++11"));
    proof {
        assert(tidy_args.deep_view() =~= seq!["grpc-sys/grpc_wrap.cc"@, "--"@,
            "-Igrpc-sys/grpc/include"@, "-x"@, "c++"@, "-std=c++11"@]);
    }
    let mut fmt_args: Vec<String> = Vec::new();
    fmt_args.push(String::from_str("-i"));
    fmt_args.push(String::from_str("grpc-sys/grpc_wrap.cc"));
    proof {
        assert(fmt_args.deep_view() =~= seq!["-i"@, "grpc-sys/grpc_wrap.cc"@]);
    }
    let mut r: Vec<Invocation> = Vec::new();
    r.push(Invocation {
        program: String::from_str("clang-tidy"),
        current_dir: None,
        args: tidy_args,
    });
    r.push(Invocation {
        program: String::from_str("clang-format"),
        current_dir: None,
        args: fmt_args,
    });
    r
}

/// Plans the refresh of the linking-dependency listing: rebuild the sys
/// package with the listing feature, then format the emitted file.
pub fn refresh_link_package(cargo: String) -> (r: Vec<Invocation>)
    ensures
        r@.len() == 2,
        r@[0].program == cargo,
        r@[0].current_dir is Some && r@[0].current_dir->0@ == "grpc-sys"@,
        r@[0].args.deep_view() == seq!["build"@, "-p"@, "grpcio-sys"@, "--features"@,
            "_list-package"@],
        r@[1].program@ == "rustfmt"@,
        r@[1].current_dir is None,
        r@[1].args.deep_view() == seq!["grpc-sys/link-deps.rs"@],
{
    let mut build_args: Vec<String> = Vec::new();
    build_args.push(String::from_str("build"));
    build_args.push(String::from_str("-p"));
    build_args.push(String::from_str("grpcio-sys"));
    build_args.push(String::from_str("--features"));
    build_args.push(String::from_str("_list-package"));
    proof {
        assert(build_args.deep_view() =~= seq!["build"@, "-p"@, "grpcio-sys"@, "--features"@,
            "_list-package"@]);
    }
    let mut fmt_args: Vec<String> = Vec::new();
    fmt_args.push(String::from_str("grpc-sys/link-deps.rs"));
    proof {
        assert(fmt_args.deep_view() =~= seq!["grpc-sys/link-deps.rs"@]);
    }
    let mut r: Vec<Invocation> = Vec::new();
    r.push(Invocation {
        program: cargo,
        current_dir: Some(String::from_str("grpc-sys")),
        args: build_args,
    });
    r.push(Invocation { program: String::from_str("rustfmt"), current_dir: None, args: fmt_args });
    r
}

/// Plans the build of the service-stub plugin binary for the primary codec.
pub fn build_stub_plugin(cargo: String) -> (r: Invocation)
    ensures
        r.program == cargo,
        r.current_dir is None,
        r.args.deep_view() == seq!["build"@, "-p"@, "grpcio-compiler"@],
{
    let mut args: Vec<String> = Vec::new();
    args.push(String::from_str("build"));
    args.push(String::from_str("-p"));
    args.push(String::from_str("grpcio-compiler"));
    proof {
        assert(args.deep_view() =~= seq!["build"@, "-p"@, "grpcio-compiler"@]);
    }
    Invocation { program: cargo, current_dir: None, args }
}

/// Plans the schema compiler's service-stub pass: the include flag, the
/// stub output flag, the plugin flag, then every resolved input, in order.
pub fn stub_codegen_invocation(
    protoc: &str,
    include_root: &str,
    out_dir: &str,
    inputs: &Vec<String>,
) -> (r: Invocation)
    ensures
        r.program@ == protoc@,
        r.current_dir is None,
        r.args.deep_view() == seq!["-I"@ + include_root@, "--grpc_out="@ + out_dir@,
            "--plugin=protoc-gen-grpc=./target/debug/grpc_rust_plugin"@]
            + inputs.deep_view(),
{
    let ghost dv = inputs.deep_view();
    let mut args: Vec<String> = Vec::new();
    args.push(concat2("-I", include_root));
    args.push(concat2("--grpc_out=", out_dir));
    args.push(String::from_str("--plugin=protoc-gen-grpc=./target/debug/grpc_rust_plugin"));
    let ghost prefix = args.deep_view();
    proof {
        assert(prefix =~= seq!["-I"@ + include_root@, "--grpc_out="@ + out_dir@,
            "--plugin=protoc-gen-grpc=./target/debug/grpc_rust_plugin"@]);
        assert(args.deep_view() =~= prefix + dv.take(0));
    }
    let mut i: usize = 0;
    while i < inputs.len()
        invariant
            dv == inputs.deep_view(),
            dv.len() == inputs.len(),
            i <= inputs.len(),
            args.deep_view() == prefix + dv.take(i as int),
        decreases inputs.len() - i,
    {
        let x = inputs[i].clone();
        let ghost xd = x@;
        let ghost pre = args@;
        let ghost before = args.deep_view();
        proof {
            assert(xd == dv[i as int]);
        }
        args.push(x);
        proof {
            let new_dv = args.deep_view();
            assert(dv.take(i + 1).len() == i + 1);
            assert(dv.take(i as int).len() == i);
            assert((prefix + dv.take(i + 1)).len() == prefix.len() + i + 1);
            assert(before.len() == prefix.len() + i);
            assert(before.len() == pre.len());
            assert(new_dv.len() == pre.len() + 1);
            assert forall|j: int|
                0 <= j < new_dv.len() implies new_dv[j] == (prefix + dv.take(i + 1))[j] by {
                assert(new_dv[j] == args@[j].deep_view());
                if j < pre.len() {
                    assert(args@[j] == pre[j]);
                    assert(before[j] == pre[j].deep_view());
                    assert(before[j] == (prefix + dv.take(i as int))[j]);
                    if j < prefix.len() {
                        assert((prefix + dv.take(i as int))[j] == prefix[j]);
                        assert((prefix + dv.take(i + 1))[j] == prefix[j]);
                    } else {
                        assert((prefix + dv.take(i as int))[j] == dv.take(i as int)[j
                            - prefix.len()]);
                        assert(dv.take(i as int)[j - prefix.len()] == dv[j - prefix.len()]);
                        assert((prefix + dv.take(i + 1))[j] == dv.take(i + 1)[j - prefix.len()]);
                        assert(dv.take(i + 1)[j - prefix.len()] == dv[j - prefix.len()]);
                    }
                } else {
                    assert(j == pre.len());
                    assert(args@[j].deep_view() == xd);
                    assert((prefix + dv.take(i + 1))[j] == dv.take(i + 1)[i as int]);
                    assert(dv.take(i + 1)[i as int] == dv[i as int]);
                }
            }
            assert(args.deep_view() =~= prefix + dv.take(i + 1));
        }
        i += 1;
    }
    proof {
        assert(dv.take(dv.len() as int) =~= dv);
    }
    Invocation { program: String::from_str(protoc), current_dir: None, args }
}

/// Plans the build of the alternate generator binary.
pub fn build_alternate_generator(cargo: String) -> (r: Invocation)
    ensures
        r.program == cargo,
        r.current_dir is Some && r.current_dir->0@ == "compiler"@,
        r.args.deep_view() == seq!["build"@, "--no-default-features"@, "--features"@,
            "prost-codec"@, "--bin"@, "grpc_rust_prost"@],
{
    let mut args: Vec<String> = Vec::new();
    args.push(String::from_str("build"));
    args.push(String::from_str("--no-default-features"));
    args.push(String::from_str("--features"));
    args.push(String::from_str("prost-codec"));
    args.push(String::from_str("--bin"));
    args.push(String::from_str("grpc_rust_prost"));
    proof {
        assert(args.deep_view() =~= seq!["build"@, "--no-default-features"@, "--features"@,
            "prost-codec"@, "--bin"@, "grpc_rust_prost"@]);
    }
    Invocation { program: cargo, current_dir: Some(String::from_str("compiler")), args }
}

/// Plans the alternate generator's single run: the comma-joined input list,
/// the include root and the output directory.
pub fn alternate_codegen_invocation(
    include_root: &str,
    out_dir: &str,
    inputs: &Vec<String>,
) -> (r: Invocation)
    ensures
        r.program@ == "target/debug/grpc_rust_prost"@,
        r.current_dir is None,
        r.args.deep_view() == seq!["--protos="@ + joined_comma(inputs.deep_view()),
            "--includes="@ + include_root@, "--out-dir="@ + out_dir@],
{
    let joined = join_comma(inputs);
    let mut args: Vec<String> = Vec::new();
    args.push(concat2("--protos=", joined.as_str()));
    args.push(concat2("--includes=", include_root));
    args.push(concat2("--out-dir=", out_dir));
    proof {
        assert(args.deep_view() =~= seq!["--protos="@ + joined_comma(inputs.deep_view()),
            "--includes="@ + include_root@, "--out-dir="@ + out_dir@]);
    }
    Invocation {
        program: String::from_str("target/debug/grpc_rust_prost"),
        current_dir: None,
        args,
    }
}

/// Decides which program drives the build-tool invocations, from the value
/// of the build tool's environment pointer: without one the run aborts with
/// exit code 1.
pub fn cargo_program(env_cargo: Option<String>) -> (r: Result<String, i32>)
    ensures
        env_cargo is Some <==> r is Ok,
        env_cargo is Some ==> r->Ok_0 == env_cargo->0,
        env_cargo is None ==> r->Err_0 == 1i32,
{
    match env_cargo {
        Some(s) => Ok(s),
        None => Err(1),
    }
}

} // verus!
