//! The process-execution core of a small interactive shell: decoding a
//! child's wait status, trimming captured output, assembling and rendering
//! the result of one execution, building a child's argument vector, and the
//! command-line helpers around them.

use vstd::prelude::*;

pub mod status;
pub mod text;
pub mod output;
pub mod env;
pub mod program;
pub mod builtin;
pub mod command;

verus! {

/// Returns `b` unchanged; marks a condition that is expected to be false.
pub fn unlikely(b: bool) -> (r: bool)
    ensures
        r == b,
{
    b
}

} // verus!
