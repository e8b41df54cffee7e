//! The result of one execution and its textual rendering.

use vstd::prelude::*;
use crate::status::{decode_status, decoded_status};
use crate::text::{is_trim_of, trim_whitespace};

verus! {

/// The decimal digit for `d` (below ten).
pub open spec fn digit_char(d: nat) -> char {
    seq!['0', '1', '2', '3', '4', '5', '6', '7', '8', '9'][d as int]
}

/// The decimal digits of `n`, without leading zeros.
pub open spec fn digits(n: nat) -> Seq<char>
    decreases n,
{
    if n < 10 {
        seq![digit_char(n)]
    } else {
        digits(n / 10).push(digit_char(n % 10))
    }
}

/// `n` written in decimal, with a minus sign when it is negative.
pub open spec fn decimal(n: int) -> Seq<char> {
    if n < 0 {
        seq!['-'] + digits((-n) as nat)
    } else {
        digits(n as nat)
    }
}

/// The closing line of a rendering: `status: N`.
pub open spec fn status_line(status: int) -> Seq<char> {
    seq!['s', 't', 'a', 't', 'u', 's', ':', ' '] + decimal(status)
}

/// The rendering of a result: stdout, then stderr, each on its own line
/// when not empty, then the status line; nothing when both are empty.
pub open spec fn render(stdout: Seq<char>, stderr: Seq<char>, status: int) -> Seq<char> {
    if stdout.len() == 0 && stderr.len() == 0 {
        Seq::empty()
    } else if stderr.len() == 0 {
        stdout + seq!['\n'] + status_line(status)
    } else if stdout.len() == 0 {
        stderr + seq!['\n'] + status_line(status)
    } else {
        stdout + seq!['\n'] + stderr + seq!['\n'] + status_line(status)
    }
}

fn digit_str(d: u64) -> (r: &'static str)
    requires
        d < 10,
    ensures
        r@ == seq![digit_char(d as nat)],
{
    proof {
        reveal_strlit("0");
        reveal_strlit("1");
        reveal_strlit("2");
        reveal_strlit("3");
        reveal_strlit("4");
        reveal_strlit("5");
        reveal_strlit("6");
        reveal_strlit("7");
        reveal_strlit("8");
        reveal_strlit("9");
    }
    let r = match d {
        0 => "0",
        1 => "1",
        2 => "2",
        3 => "3",
        4 => "4",
        5 => "5",
        6 => "6",
        7 => "7",
        8 => "8",
        _ => "9",
    };
    assert(r@ =~= seq![digit_char(d as nat)]);
    r
}

fn push_digits(s: &mut String, n: u64)
    ensures
        final(s)@ == old(s)@ + digits(n as nat),
    decreases n,
{
    if n >= 10 {
        push_digits(s, n / 10);
    }
    s.append(digit_str(n % 10));
    proof {
        if n >= 10 {
            assert(old(s)@ + digits((n / 10) as nat) + seq![digit_char((n % 10) as nat)] =~= old(
                s,
            )@ + digits(n as nat));
        } else {
            assert(digits(n as nat) == seq![digit_char(n as nat)]);
            assert(old(s)@ + seq![digit_char((n % 10) as nat)] =~= old(s)@ + digits(n as nat));
        }
    }
}

/// Appends `n`, in decimal, to `s`.
pub fn push_decimal(s: &mut String, n: i32)
    ensures
        final(s)@ == old(s)@ + decimal(n as int),
{
    if n < 0 {
        proof {
            reveal_strlit("-");
        }
        s.append("-");
        let m: u64 = (0i64 - n as i64) as u64;
        push_digits(s, m);
        assert(final(s)@ =~= old(s)@ + decimal(n as int));
    } else {
        push_digits(s, n as u64);
    }
}

/// The result of one execution: the decoded status and the trimmed text of
/// both output streams.
#[derive(Clone, Debug)]
pub struct Output {
    pub status: i32,
    pub stdout: String,
    pub stderr: String,
}

impl Output {
    /// The result with status 0 and no output.
    pub fn empty() -> (r: Output)
        ensures
            r.status == 0,
            r.stdout@.len() == 0,
            r.stderr@.len() == 0,
    {
        Output { status: 0, stdout: String::new(), stderr: String::new() }
    }

    /// Assembles a result from what an execution collected: the raw status
    /// word of the reaped child and the text read from both pipes. Both texts
    /// are trimmed independently.
    pub fn from_raw(raw_status: i32, stdout: &str, stderr: &str) -> (r: Output)
        ensures
            r.status == decoded_status(raw_status),
            is_trim_of(r.stdout@, stdout@),
            is_trim_of(r.stderr@, stderr@),
    {
        let status = decode_status(raw_status);
        let stdout = trim_whitespace(stdout);
        let stderr = trim_whitespace(stderr);
        Output { status, stdout, stderr }
    }

    /// Whether both output texts are empty.
    pub fn is_empty(&self) -> (r: bool)
        ensures
            r == (self.stdout@.len() == 0 && self.stderr@.len() == 0),
    {
        self.stdout.as_str().is_empty() && self.stderr.as_str().is_empty()
    }

    /// The result of a fallible operation: its text on stdout with status 0
    /// on success, its error message on stderr with status 1 on failure.
    pub fn from_result(result: Result<String, String>) -> (r: Output)
        ensures
            match result {
                Ok(text) => r.status == 0 && r.stdout@ == text@ && r.stderr@.len() == 0,
                Err(msg) => r.status == 1 && r.stdout@.len() == 0 && r.stderr@ == msg@,
            },
    {
        match result {
            Ok(stdout) => Output { status: 0, stdout, stderr: String::new() },
            Err(e) => Self::from_err(e.as_str(), 1),
        }
    }

    /// A result that carries an error message on stderr and the given status.
    pub fn from_err(err: &str, status: i32) -> (r: Output)
        ensures
            r.status == status,
            r.stdout@.len() == 0,
            r.stderr@ == err@,
    {
        Output { status, stdout: String::new(), stderr: String::from_str(err) }
    }

    /// The canonical rendering of the result.
    pub fn to_string(&self) -> (r: String)
        ensures
            r@ == render(self.stdout@, self.stderr@, self.status as int),
    {
        let out_empty = self.stdout.as_str().is_empty();
        let err_empty = self.stderr.as_str().is_empty();
        if out_empty && err_empty {
            return String::new();
        }
        proof {
            reveal_strlit("\n");
            reveal_strlit("status: ");
        }
        let mut r = String::new();
        if !out_empty {
            r.append(self.stdout.as_str());
            r.append("\n");
        }
        if !err_empty {
            r.append(self.stderr.as_str());
            r.append("\n");
        }
        r.append("status: ");
        push_decimal(&mut r, self.status);
        assert(r@ =~= render(self.stdout@, self.stderr@, self.status as int));
        r
    }
}

} // verus!
