//! Decoding of the raw status word that `waitpid` reports for a child.

use vstd::prelude::*;

verus! {

/// The low seven bits of the status word are zero exactly when the child
/// exited normally.
pub open spec fn spec_exited(raw: i32) -> bool {
    raw & 0x7f == 0
}

/// The exit code sits in the second byte of the status word.
pub open spec fn spec_exit_code(raw: i32) -> i32 {
    (raw >> 8) & 0xff
}

/// The status an execution reports: the exit code after a normal exit,
/// `-1` after any other kind of termination.
pub open spec fn decoded_status(raw: i32) -> i32 {
    if spec_exited(raw) {
        spec_exit_code(raw)
    } else {
        -1i32
    }
}

/// Relies on libc::WIFEXITED (Linux): true when the low seven bits of the
/// status word are zero.
#[verifier::external_body]
fn wifexited(raw: i32) -> (r: bool)
    ensures
        r == spec_exited(raw),
{
    libc::WIFEXITED(raw)
}

/// Relies on libc::WEXITSTATUS (Linux): the second byte of the status word.
#[verifier::external_body]
fn wexitstatus(raw: i32) -> (r: i32)
    ensures
        r == spec_exit_code(raw),
{
    libc::WEXITSTATUS(raw)
}

/// Turns the raw status word of a reaped child into the status of an
/// execution result.
pub fn decode_status(raw: i32) -> (r: i32)
    ensures
        r == decoded_status(raw),
        -1 <= r <= 255,
{
    if wifexited(raw) {
        let code = wexitstatus(raw);
        assert((raw >> 8) & 0xff <= 0xff && (raw >> 8) & 0xff >= 0) by (bit_vector);
        code
    } else {
        -1
    }
}

/// A child that exits normally with code `n` (0 to 255) is reported by the
/// kernel as the status word `n << 8`; its decoded status is `n`.
pub proof fn lemma_normal_exit_status(n: i32)
    requires
        0 <= n <= 255,
    ensures
        decoded_status(n << 8) == n,
{
    assert(((n << 8) & 0x7f == 0) && (((n << 8) >> 8) & 0xff == n)) by (bit_vector)
        requires
            0 <= n <= 255,
    ;
}

/// A child killed by signal `sig` (1 to 126) is reported by the kernel as
/// the status word `sig`, with bit 7 set when a core was dumped; its
/// decoded status is `-1`.
pub proof fn lemma_killed_by_signal_status(sig: i32, core_dumped: bool)
    requires
        1 <= sig <= 126,
    ensures
        decoded_status(if core_dumped { sig | 0x80 } else { sig }) == -1,
{
    assert((sig & 0x7f != 0) && ((sig | 0x80) & 0x7f != 0)) by (bit_vector)
        requires
            1 <= sig <= 126,
    ;
}

/// Every status word whose low seven bits are not zero (a signal, a stop)
/// decodes to `-1`.
pub proof fn lemma_abnormal_status(raw: i32)
    requires
        raw & 0x7f != 0,
    ensures
        decoded_status(raw) == -1,
{
}

} // verus!
