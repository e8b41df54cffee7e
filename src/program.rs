//! A resolved program: the path of its executable and the arguments that
//! its argument vector can carry.

use vstd::prelude::*;
use crate::env::{Env, first_executable, join_path};
use crate::text::{
    ascii_words, chars_of, contains_nul, has_nul, is_ascii_white, is_ascii_whitespace_char,
    is_first_ascii_white, is_trim_of, split_ascii_words, trim_whitespace,
};

verus! {

/// The arguments that can be handed to a child: those without a null
/// character, in their order.
pub open spec fn representable(args: Seq<Seq<char>>) -> Seq<Seq<char>>
    decreases args.len(),
{
    if args.len() == 0 {
        Seq::empty()
    } else {
        let rest = representable(args.drop_last());
        if has_nul(args.last()) {
            rest
        } else {
            rest.push(args.last())
        }
    }
}

/// Every argument kept holds no null character and is one of the given
/// arguments.
pub proof fn lemma_representable_have_no_nul(args: Seq<Seq<char>>)
    ensures
        forall|i: int|
            0 <= i < representable(args).len() ==> !has_nul(#[trigger] representable(args)[i])
                && args.contains(representable(args)[i]),
    decreases args.len(),
{
    if args.len() > 0 {
        lemma_representable_have_no_nul(args.drop_last());
        let rest = representable(args.drop_last());
        assert forall|i: int| 0 <= i < representable(args).len() implies !has_nul(
            #[trigger] representable(args)[i],
        ) && args.contains(representable(args)[i]) by {
            if i < rest.len() {
                let j = choose|j: int| 0 <= j < args.drop_last().len() && args.drop_last()[j] == rest[i];
                assert(args[j] == rest[i]);
            } else {
                assert(args[args.len() - 1] == representable(args)[i]);
            }
        }
    }
}

/// An argument that holds a null character is dropped from the argument
/// vector, and only it: the vector is the one built without that argument.
pub proof fn lemma_nul_argument_dropped(program: Seq<char>, args: Seq<Seq<char>>, k: int)
    requires
        0 <= k < args.len(),
        has_nul(args[k]),
    ensures
        spec_argv(program, args) == spec_argv(program, args.remove(k)),
{
    lemma_representable_remove(args, k);
}

proof fn lemma_representable_remove(args: Seq<Seq<char>>, k: int)
    requires
        0 <= k < args.len(),
        has_nul(args[k]),
    ensures
        representable(args) == representable(args.remove(k)),
    decreases args.len(),
{
    if k == args.len() - 1 {
        assert(args.remove(k) =~= args.drop_last());
    } else {
        lemma_representable_remove(args.drop_last(), k);
        assert(args.remove(k).drop_last() =~= args.drop_last().remove(k));
        assert(args.remove(k).last() == args.last());
    }
}

/// The argument vector of a child: the program path, then each argument
/// that holds no null character.
pub open spec fn spec_argv(program: Seq<char>, args: Seq<Seq<char>>) -> Seq<Seq<char>> {
    seq![program] + representable(args)
}

/// The arguments of a program: as given, and those of them that a child's
/// argument vector can carry.
#[derive(Debug)]
pub struct Args {
    pub args: Vec<String>,
    pub args_nul_terminated: Vec<String>,
}

/// A program resolved to an executable path, with its arguments, if any.
#[derive(Debug)]
pub struct Program {
    pub args: Option<Args>,
    pub program: String,
}

/// The arguments among `args` that hold no null character, in order.
pub fn representable_args(args: &Vec<String>) -> (r: Vec<String>)
    ensures
        r.deep_view() == representable(args.deep_view()),
{
    let mut r: Vec<String> = Vec::new();
    let mut i: usize = 0;
    while i < args.len()
        invariant
            i <= args@.len(),
            r.deep_view() == representable(args.deep_view().take(i as int)),
        decreases args@.len() - i,
    {
        let a = &args[i];
        let ghost before = r.deep_view();
        assert(args.deep_view().take(i + 1).drop_last() =~= args.deep_view().take(i as int));
        if !contains_nul(a.as_str()) {
            r.push(a.clone());
            assert(r.deep_view() =~= before.push(a@));
        }
        i = i + 1;
    }
    assert(args.deep_view().take(args@.len() as int) =~= args.deep_view());
    r
}

/// A program whose executable was found at `program`: its arguments are
/// kept when there are any.
pub open spec fn program_args_ok(p: &Program, args: Seq<Seq<char>>) -> bool {
    match p.args {
        None => args.len() == 0,
        Some(a) => args.len() > 0 && a.args.deep_view() == args
            && a.args_nul_terminated.deep_view() == representable(args),
    }
}

impl Program {
    /// Splits an input line at its first ASCII whitespace character: the
    /// trimmed text before it names the program; the trimmed text after it
    /// holds the arguments, separated by ASCII whitespace. A line without
    /// ASCII whitespace is a program name alone.
    pub fn from_str_as_str(s: &str) -> (r: (String, Vec<String>))
        ensures
            (forall|j: int| 0 <= j < s@.len() ==> !is_ascii_white(#[trigger] s@[j])) ==> (
            is_trim_of(r.0@, s@) && r.1@.len() == 0),
            forall|p: int|
                is_first_ascii_white(s@, p) ==> is_trim_of(r.0@, #[trigger] s@.take(p)) && exists|
                    t: Seq<char>,
                | is_trim_of(t, s@.skip(p)) && r.1.deep_view() == ascii_words(t),
    {
        let cs = chars_of(s);
        let n = cs.len();
        let mut p: usize = 0;
        while p < n && !is_ascii_whitespace_char(cs[p])
            invariant
                cs@ == s@,
                n == cs@.len(),
                p <= n,
                forall|j: int| 0 <= j < p ==> !is_ascii_white(#[trigger] s@[j]),
            decreases n - p,
        {
            p = p + 1;
        }
        if p == n {
            return (trim_whitespace(s), Vec::new());
        }
        let head = s.substring_char(0, p);
        let tail = s.substring_char(p, n);
        let program = trim_whitespace(head);
        let rest = trim_whitespace(tail);
        let args = split_ascii_words(rest.as_str());
        proof {
            assert(s@.take(p as int) =~= head@);
            assert(s@.skip(p as int) =~= tail@);
            assert forall|q: int| is_first_ascii_white(s@, q) implies q == p by {
                if q < p {
                    assert(!is_ascii_white(s@[q]));
                }
                if q > p {
                    assert(!is_ascii_white(s@[p as int]));
                }
            }
        }
        (program, args)
    }

    /// Resolves `program` on the search path of `env` and keeps `args`.
    /// `modes[i]` is the permission mode of the `i`th candidate path (see
    /// `Env::candidate_paths`), or `None` when it has none. Fails with the
    /// message `<program> is not found` when no candidate is executable.
    pub fn from_as_str(program: &str, args: Vec<String>, env: &Env, modes: &Vec<Option<u32>>) -> (r:
        Result<Program, String>)
        requires
            modes@.len() == env.path_vars@.len(),
        ensures
            match first_executable(modes@) {
                Some(i) => r matches Ok(p) && p.program@ == join_path(
                    env.path_vars@[i]@,
                    program@,
                ) && program_args_ok(&p, args.deep_view()),
                None => r matches Err(msg) && msg@ == program@ + " is not found"@,
            },
    {
        let path = match env.find_executable(program, modes) {
            Some(p) => p,
            None => {
                let mut msg = String::from_str(program);
                msg.append(" is not found");
                return Err(msg);
            },
        };
        let args = if args.len() == 0 {
            None
        } else {
            let args_nul_terminated = representable_args(&args);
            Some(Args { args, args_nul_terminated })
        };
        Ok(Program { args, program: path })
    }

    /// The `n`th argument, if there is one.
    pub fn nth_arg(&self, n: usize) -> (r: Option<&String>)
        ensures
            match self.args {
                None => r is None,
                Some(a) => if n < a.args@.len() {
                    r matches Some(s) && s == a.args@[n as int]
                } else {
                    r is None
                },
            },
    {
        match &self.args {
            None => None,
            Some(a) => if n < a.args.len() {
                Some(&a.args[n])
            } else {
                None
            },
        }
    }

    /// The argument vector of the child: the program path, then each
    /// argument that holds no null character.
    pub fn argv(&self) -> (r: Vec<String>)
        ensures
            r.deep_view() == seq![self.program@] + match self.args {
                None => Seq::empty(),
                Some(a) => a.args_nul_terminated.deep_view(),
            },
    {
        let mut r: Vec<String> = Vec::new();
        r.push(self.program.clone());
        match &self.args {
            None => {},
            Some(a) => {
                let mut i: usize = 0;
                while i < a.args_nul_terminated.len()
                    invariant
                        i <= a.args_nul_terminated@.len(),
                        r.deep_view() == seq![self.program@]
                            + a.args_nul_terminated.deep_view().take(i as int),
                    decreases a.args_nul_terminated@.len() - i,
                {
                    let ghost before = r.deep_view();
                    r.push(a.args_nul_terminated[i].clone());
                    assert(r.deep_view() =~= before.push(a.args_nul_terminated@[i as int]@));
                    assert(a.args_nul_terminated.deep_view().take(i + 1)
                        =~= a.args_nul_terminated.deep_view().take(i as int).push(a.args_nul_terminated@[i as int]@));
                    i = i + 1;
                }
            },
        }
        assert(r.deep_view() =~= seq![self.program@] + match self.args {
            None => Seq::empty(),
            Some(a) => a.args_nul_terminated.deep_view(),
        });
        r
    }
}

} // verus!
