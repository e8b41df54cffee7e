//! What every child is started with, beyond its argument vector.

use vstd::prelude::*;

verus! {

/// The launcher of child processes.
pub struct Command;

impl Command {
    /// The environment of every child: the fixed search path alone; nothing
    /// of the shell's own environment is passed on.
    pub fn child_env() -> (r: Vec<String>)
        ensures
            r.deep_view() == seq!["PATH=/usr/bin:/bin"@],
    {
        let mut r: Vec<String> = Vec::new();
        r.push(String::from_str("PATH=/usr/bin:/bin"));
        assert(r.deep_view() =~= seq!["PATH=/usr/bin:/bin"@]);
        r
    }
}

} // verus!
