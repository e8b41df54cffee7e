//! The shell's context: working directory, user, host, and the search path
//! on which programs are resolved.

use vstd::prelude::*;
use crate::text::chars_of;

verus! {

/// `name` appended to the directory `dir` as a path component: an absolute
/// `name` replaces `dir`; a separator is put between them unless `dir` is
/// empty or already ends with one.
pub open spec fn join_path(dir: Seq<char>, name: Seq<char>) -> Seq<char> {
    if name.len() > 0 && name[0] == '/' {
        name
    } else if dir.len() == 0 || dir[dir.len() - 1] == '/' {
        dir + name
    } else {
        dir + seq!['/'] + name
    }
}

/// A permission mode with an execute bit set, for anyone.
pub open spec fn spec_is_exe(mode: u32) -> bool {
    mode & 0o111 != 0
}

/// A candidate path that exists and may be executed.
pub open spec fn mode_is_exe(m: Option<u32>) -> bool {
    m matches Some(x) && spec_is_exe(x)
}

/// `i` is the first index of `modes` that is executable.
pub open spec fn is_first_executable(modes: Seq<Option<u32>>, i: int) -> bool {
    &&& 0 <= i < modes.len()
    &&& mode_is_exe(modes[i])
    &&& forall|j: int| 0 <= j < i ==> !mode_is_exe(#[trigger] modes[j])
}

/// The first index of `modes` that is executable, if any.
pub open spec fn first_executable(modes: Seq<Option<u32>>) -> Option<int> {
    if exists|i: int| is_first_executable(modes, i) {
        Some(choose|i: int| is_first_executable(modes, i))
    } else {
        None
    }
}

/// Whether `mode` has an execute bit set.
pub fn is_exe(mode: u32) -> (r: bool)
    ensures
        r == spec_is_exe(mode),
{
    mode & 0o111 != 0
}

/// The path of `name` in the directory `dir`.
pub fn join(dir: &str, name: &str) -> (r: String)
    ensures
        r@ == join_path(dir@, name@),
{
    proof {
        reveal_strlit("/");
    }
    if name.unicode_len() > 0 && name.get_char(0) == '/' {
        return String::from_str(name);
    }
    let n = dir.unicode_len();
    let mut r = String::from_str(dir);
    if n > 0 && dir.get_char(n - 1) != '/' {
        r.append("/");
    }
    r.append(name);
    r
}

/// The pieces finished so far in `t`, and the piece still being read at
/// its end, when `t` is read from left to right and cut at each `:`.
pub open spec fn colon_state(t: Seq<char>) -> (Seq<Seq<char>>, Seq<char>)
    decreases t.len(),
{
    if t.len() == 0 {
        (Seq::empty(), Seq::empty())
    } else {
        let (done, cur) = colon_state(t.drop_last());
        if t.last() == ':' {
            (done.push(cur), Seq::empty())
        } else {
            (done, cur.push(t.last()))
        }
    }
}

/// The pieces of `t` between its colons, empty ones included.
pub open spec fn colon_pieces(t: Seq<char>) -> Seq<Seq<char>> {
    colon_state(t).0.push(colon_state(t).1)
}

/// The directories of a search path: the pieces between its colons.
pub fn split_search_path(path: &str) -> (r: Vec<String>)
    ensures
        r.deep_view() == colon_pieces(path@),
{
    let cs = chars_of(path);
    let n = cs.len();
    let mut r: Vec<String> = Vec::new();
    let mut start: usize = 0;
    let mut i: usize = 0;
    while i < n
        invariant
            cs@ == path@,
            n == cs@.len(),
            start <= i <= n,
            r.deep_view() == colon_state(path@.take(i as int)).0,
            colon_state(path@.take(i as int)).1 == path@.subrange(start as int, i as int),
        decreases n - i,
    {
        assert(path@.take(i + 1).drop_last() =~= path@.take(i as int));
        assert(path@.take(i + 1).last() == path@[i as int]);
        if cs[i] == ':' {
            let ghost before = r.deep_view();
            r.push(String::from_str(path.substring_char(start, i)));
            assert(r.deep_view() =~= before.push(path@.subrange(start as int, i as int)));
            start = i + 1;
            assert(path@.subrange(start as int, i + 1) =~= Seq::<char>::empty());
        } else {
            assert(path@.subrange(start as int, i + 1) =~= path@.subrange(start as int, i as int).push(
                path@[i as int],
            ));
        }
        i = i + 1;
    }
    assert(path@.take(n as int) =~= path@);
    let ghost before = r.deep_view();
    r.push(String::from_str(path.substring_char(start, n)));
    assert(r.deep_view() =~= before.push(path@.subrange(start as int, n as int)));
    r
}

/// The shell's context.
pub struct Env {
    pub cwd: String,
    pub user: String,
    pub hostname: String,
    pub path_vars: Vec<String>,
}

impl Env {
    /// The context for the given working directory, user and host, with
    /// the directories of the search path `path`.
    pub fn from_parts(cwd: String, user: String, hostname: String, path: &str) -> (r: Env)
        ensures
            r.cwd == cwd,
            r.user == user,
            r.hostname == hostname,
            r.path_vars.deep_view() == colon_pieces(path@),
    {
        let path_vars = split_search_path(path);
        Env { cwd, user, hostname, path_vars }
    }

    /// The paths at which `path` is looked for, one for each directory of
    /// the search path, in order.
    pub fn candidate_paths(&self, path: &str) -> (r: Vec<String>)
        ensures
            r@.len() == self.path_vars@.len(),
            forall|i: int|
                0 <= i < r@.len() ==> #[trigger] r@[i]@ == join_path(self.path_vars@[i]@, path@),
    {
        let mut r: Vec<String> = Vec::new();
        let mut i: usize = 0;
        while i < self.path_vars.len()
            invariant
                i <= self.path_vars@.len(),
                r@.len() == i,
                forall|k: int|
                    0 <= k < i ==> #[trigger] r@[k]@ == join_path(self.path_vars@[k]@, path@),
            decreases self.path_vars@.len() - i,
        {
            r.push(join(self.path_vars[i].as_str(), path));
            i = i + 1;
        }
        r
    }

    /// The first candidate path of `path` that is executable. `modes[i]` is
    /// the permission mode of the `i`th candidate path, or `None` when there
    /// is nothing there.
    pub fn find_executable(&self, path: &str, modes: &Vec<Option<u32>>) -> (r: Option<String>)
        requires
            modes@.len() == self.path_vars@.len(),
        ensures
            match first_executable(modes@) {
                Some(i) => r matches Some(p) && p@ == join_path(self.path_vars@[i]@, path@),
                None => r is None,
            },
    {
        let mut i: usize = 0;
        while i < modes.len()
            invariant
                modes@.len() == self.path_vars@.len(),
                i <= modes@.len(),
                forall|j: int| 0 <= j < i ==> !mode_is_exe(#[trigger] modes@[j]),
            decreases modes@.len() - i,
        {
            let exe = match modes[i] {
                Some(m) => is_exe(m),
                None => false,
            };
            if exe {
                proof {
                    assert(is_first_executable(modes@, i as int));
                    let c = choose|c: int| is_first_executable(modes@, c);
                    assert(c == i) by {
                        if c < i {
                            assert(!mode_is_exe(modes@[c]));
                        }
                        if c > i {
                            assert(!mode_is_exe(modes@[i as int]));
                        }
                    }
                }
                return Some(join(self.path_vars[i].as_str(), path));
            }
            i = i + 1;
        }
        assert(!exists|c: int| is_first_executable(modes@, c));
        None
    }

    /// The prompt: `user@hostname cwd`.
    pub fn ps1(&self) -> (r: String)
        ensures
            r@ == self.user@ + "@"@ + self.hostname@ + " "@ + self.cwd@,
    {
        let mut r = String::from_str(self.user.as_str());
        r.append("@");
        r.append(self.hostname.as_str());
        r.append(" ");
        r.append(self.cwd.as_str());
        r
    }

    /// The working directory as shown to the user.
    pub fn pretty_cwd(&self) -> (r: String)
        ensures
            r@ == "~"@,
    {
        String::from_str("~")
    }
}

} // verus!
