//! Verified core of a code-generation orchestrator.
//!
//! The library computes everything the orchestrator decides: which schema
//! files feed the compilers and in what order, the exact command lines of
//! every external invocation, the textual patches applied to generated
//! sources, the merge and cleanup rewrites, and how subprocess failures
//! propagate to the overall exit code. The surrounding binary only performs
//! the file and process I/O that these functions plan.

pub mod cleanup;
pub mod invoke;
pub mod orchestrate;
pub mod patch;
pub mod plans;
pub mod resolve;
pub mod text;

use vstd::prelude::*;

verus! {

/// Exit code reported when a subprocess could not be spawned or was killed
/// without an exit code of its own.
pub const FAILURE_CODE: i32 = -1;

} // verus!
