//! External invocations as data, and the fatal-on-any-failure policy.
//!
//! Every external tool run is planned here as a plain value: a program, an
//! optional working directory and an argument list. The orchestrator runs
//! the planned invocations strictly in order and aborts the whole run at the
//! first one that does not exit cleanly, propagating that invocation's exit
//! code verbatim, or a sentinel code when the subprocess died without one.

use vstd::prelude::*;

use crate::FAILURE_CODE;

verus! {

/// One planned external invocation.
pub struct Invocation {
    pub program: String,
    pub current_dir: Option<String>,
    pub args: Vec<String>,
}

/// How one external invocation ended.
#[derive(Clone, Copy, PartialEq, Eq, Structural, Debug)]
pub enum RunResult {
    /// The subprocess could not be started at all.
    SpawnFailed,
    /// The subprocess exited with this code.
    Exited(i32),
    /// The subprocess was killed and reported no exit code.
    Signaled,
}

/// The exit code the whole run must abort with after this result, or `None`
/// when the run may continue.
pub open spec fn abort_code(r: RunResult) -> Option<i32> {
    match r {
        RunResult::SpawnFailed => Some(FAILURE_CODE),
        RunResult::Exited(c) => if c == 0 {
            None
        } else {
            Some(c)
        },
        RunResult::Signaled => Some(FAILURE_CODE),
    }
}

/// Decides, from how an invocation ended, whether the run goes on: `None`
/// to continue, `Some(code)` to abort the whole run with `code`.
pub fn exec_outcome(r: &RunResult) -> (a: Option<i32>)
    ensures
        a == abort_code(*r),
{
    match r {
        RunResult::SpawnFailed => Some(FAILURE_CODE),
        RunResult::Exited(c) => {
            if *c == 0 {
                None
            } else {
                Some(*c)
            }
        },
        RunResult::Signaled => Some(FAILURE_CODE),
    }
}

/// The overall exit of a run whose invocations would end as `rs` lists, in
/// order: `None` when every invocation succeeds, otherwise the abort code of
/// the first failing one.
pub open spec fn pipeline_outcome(rs: Seq<RunResult>) -> Option<i32>
    decreases rs.len(),
{
    if rs.len() == 0 {
        None
    } else if abort_code(rs[0]) is Some {
        abort_code(rs[0])
    } else {
        pipeline_outcome(rs.skip(1))
    }
}

/// How many invocations of `rs` are attempted before the run stops: all of
/// them on success, none past the first failure.
pub open spec fn steps_attempted(rs: Seq<RunResult>) -> nat
    decreases rs.len(),
{
    if rs.len() == 0 {
        0
    } else if abort_code(rs[0]) is Some {
        1
    } else {
        1 + steps_attempted(rs.skip(1))
    }
}

/// Folds the fatal-on-failure policy over a whole run: returns how many
/// invocations were attempted and the overall abort code, if any.
pub fn run_outcome(results: &Vec<RunResult>) -> (r: (usize, Option<i32>))
    ensures
        r.0 == steps_attempted(results@),
        r.1 == pipeline_outcome(results@),
{
    let mut i: usize = 0;
    proof {
        assert(results@.skip(0) =~= results@);
    }
    while i < results.len()
        invariant
            i <= results.len(),
            pipeline_outcome(results@) == pipeline_outcome(results@.skip(i as int)),
            steps_attempted(results@) == i + steps_attempted(results@.skip(i as int)),
        decreases results.len() - i,
    {
        let a = exec_outcome(&results[i]);
        proof {
            assert(results@.skip(i as int)[0] == results@[i as int]);
            assert(results@.skip(i as int).skip(1) =~= results@.skip(i + 1));
        }
        if let Some(code) = a {
            return (i + 1, Some(code));
        }
        i += 1;
    }
    proof {
        assert(results@.skip(results@.len() as int).len() == 0);
    }
    (i, None)
}

/// Fatal propagation: when every invocation before position `k` succeeds and
/// the one at `k` fails with abort code `c`, the whole run exits with `c`
/// and nothing after position `k` is attempted.
pub proof fn lemma_fatal_propagation(rs: Seq<RunResult>, k: int, c: i32)
    requires
        0 <= k < rs.len(),
        forall|j: int| 0 <= j < k ==> abort_code(#[trigger] rs[j]) is None,
        abort_code(rs[k]) == Some(c),
    ensures
        pipeline_outcome(rs) == Some(c),
        steps_attempted(rs) == k + 1,
    decreases k,
{
    if k == 0 {
    } else {
        assert(abort_code(rs[0]) is None);
        let t = rs.skip(1);
        assert(forall|j: int| 0 <= j < k - 1 ==> #[trigger] t[j] == rs[j + 1]);
        assert(t[k - 1] == rs[k]);
        lemma_fatal_propagation(t, k - 1, c);
    }
}

} // verus!
