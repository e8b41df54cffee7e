//! The commands that the shell runs itself.

use vstd::prelude::*;
use crate::text::str_equal;

verus! {

/// A command that the shell runs itself.
#[derive(Debug)]
pub enum Builtin {
    Exit,
    Cd(String),
}

impl Builtin {
    /// `cd` (with its first argument, or an empty one) and `exit` are
    /// builtins; any other program name is not.
    pub fn try_from_program(program: &str, args: &Vec<String>) -> (r: Result<Builtin, ()>)
        ensures
            program@ == "cd"@ ==> (r matches Ok(Builtin::Cd(d)) && d@ == if args@.len() > 0 {
                args@[0]@
            } else {
                Seq::empty()
            }),
            program@ == "exit"@ ==> r matches Ok(Builtin::Exit),
            program@ != "cd"@ && program@ != "exit"@ ==> r is Err,
    {
        proof {
            reveal_strlit("cd");
            reveal_strlit("exit");
            assert("cd"@.len() != "exit"@.len());
        }
        if str_equal(program, "cd") {
            let dir = if args.len() > 0 {
                args[0].clone()
            } else {
                String::new()
            };
            Ok(Builtin::Cd(dir))
        } else if str_equal(program, "exit") {
            Ok(Builtin::Exit)
        } else {
            Err(())
        }
    }
}

/// A directory argument that starts with `.` or `..`.
pub open spec fn spec_is_dots(dir: Seq<char>) -> bool {
    dir.len() > 0 && dir[0] == '.' && (dir.len() == 1 || dir[1] == '.')
}

/// Whether the directory argument of `cd` starts with `.` or `..`, so that
/// the new working directory is to be written in canonical form.
pub fn is_dots(dir: &str) -> (r: bool)
    ensures
        r == spec_is_dots(dir@),
{
    let n = dir.unicode_len();
    if n == 0 || dir.get_char(0) != '.' {
        false
    } else if n == 1 {
        true
    } else {
        dir.get_char(1) == '.'
    }
}

} // verus!
