//! The user system call ABI: `a7` selects the call, `a0` carries the
//! argument and the result.

use vstd::prelude::*;

verus! {

/// `a7` value of the console output system call.
pub const SYSCALL_PUTCHAR: usize = 1;
/// `a7` value of the process exit system call.
pub const SYSCALL_EXIT: usize = 2;

/// Result written to `a0` for a system call number that is not known.
pub const ERR_UNKNOWN_SYSCALL: isize = -1;
/// Result written to `a0` for a known system call whose argument is out of range.
pub const ERR_INVALID_ARGUMENT: isize = -2;

/// What the kernel does with the user after a system call.
#[derive(Clone, Copy, PartialEq, Eq, Structural, Debug)]
pub enum SyscallOutcome {
    /// Write the value to `a0`, step over the `ecall` and resume the user.
    Return(isize),
    /// A valid exit: record the code and end this user run.
    Exit(u8),
}

/// A dispatched system call: its outcome, and the byte (if any) that the
/// console must emit as its effect.
#[derive(Clone, Copy, PartialEq, Eq, Structural, Debug)]
pub struct Dispatched {
    pub outcome: SyscallOutcome,
    pub output: Option<u8>,
}

/// The outcome that the ABI (`a7` = number, `a0` = argument) prescribes.
pub open spec fn syscall_outcome(number: usize, arg0: usize) -> SyscallOutcome {
    if number == SYSCALL_PUTCHAR {
        if arg0 > 0x7f {
            SyscallOutcome::Return(ERR_INVALID_ARGUMENT)
        } else {
            SyscallOutcome::Return(0)
        }
    } else if number == SYSCALL_EXIT {
        if arg0 > 0xff {
            SyscallOutcome::Return(ERR_INVALID_ARGUMENT)
        } else {
            SyscallOutcome::Exit(arg0 as u8)
        }
    } else {
        SyscallOutcome::Return(ERR_UNKNOWN_SYSCALL)
    }
}

/// The byte that a system call puts on the console: only a valid `putchar`
/// (an ASCII argument) writes one.
pub open spec fn syscall_output(number: usize, arg0: usize) -> Option<u8> {
    if number == SYSCALL_PUTCHAR && arg0 <= 0x7f {
        Some(arg0 as u8)
    } else {
        None
    }
}

/// Dispatches one user system call.
pub fn dispatch(number: usize, arg0: usize) -> (d: Dispatched)
    ensures
        d.outcome == syscall_outcome(number, arg0),
        d.output == syscall_output(number, arg0),
{
    if number == SYSCALL_PUTCHAR {
        if arg0 > 0x7f {
            Dispatched { outcome: SyscallOutcome::Return(ERR_INVALID_ARGUMENT), output: None }
        } else {
            Dispatched { outcome: SyscallOutcome::Return(0), output: Some(arg0 as u8) }
        }
    } else if number == SYSCALL_EXIT {
        if arg0 > 0xff {
            Dispatched { outcome: SyscallOutcome::Return(ERR_INVALID_ARGUMENT), output: None }
        } else {
            Dispatched { outcome: SyscallOutcome::Exit(arg0 as u8), output: None }
        }
    } else {
        Dispatched { outcome: SyscallOutcome::Return(ERR_UNKNOWN_SYSCALL), output: None }
    }
}

/// An exit code reaches the kernel exactly when it fits in a byte, and it
/// arrives unchanged; a putchar never ends the run.
pub proof fn lemma_exit_code_round_trip(code: usize)
    ensures
        code <= 0xff ==> syscall_outcome(SYSCALL_EXIT, code) == SyscallOutcome::Exit(code as u8)
            && (code as u8) as usize == code,
        code > 0xff ==> syscall_outcome(SYSCALL_EXIT, code) == SyscallOutcome::Return(
            ERR_INVALID_ARGUMENT,
        ),
        !(syscall_outcome(SYSCALL_PUTCHAR, code) is Exit),
{
}

} // verus!
