//! User errors: the trusted trap boundary, the planned fault, system calls
//! from the user wrappers, and the record the trap handler leaves for the
//! process manager.

use vstd::prelude::*;

use crate::memory::Region;
use crate::process::{FaultInfo, Process, ProcessState, Program};
use crate::syscall::{dispatch, syscall_outcome, syscall_output, SyscallOutcome};
use crate::trap::{
    TrapFrame, SSTATUS_SPP, decode_scause, is_interrupt, trusted_user_sstatus, user_sstatus,
};
use crate::user::{
    Stacks, SetupError, stacks_error, user_sp_ok, initial_user_sp, is_prepared, check_stacks,
    initial_sp, frame_end,
};

verus! {

/// Handler action: go back to the user.
pub const ACTION_RESUME_USER: usize = 0;
/// Handler action: end the current process and return to the manager.
pub const ACTION_TERMINATE_PROCESS: usize = 1;

/// Exit-code slot value when no exit is recorded.
pub const NO_EXIT_CODE: usize = usize::MAX;

/// Cause code of an illegal instruction.
pub const CAUSE_ILLEGAL_INSTRUCTION: usize = 2;
/// Cause code of an environment call from user mode.
pub const CAUSE_USER_ECALL: usize = 8;

/// How the last user run ended, as far as the trap handler recorded it.
#[derive(Clone, Copy, PartialEq, Eq, Structural, Debug)]
pub enum OutcomeKind {
    Empty,
    Exit,
    Fault,
}

/// The record that the trap handler leaves for the process manager.
#[derive(Clone, Copy, PartialEq, Eq, Structural, Debug)]
pub struct OutcomeSlot {
    pub kind: OutcomeKind,
    pub exit_code: usize,
    pub fault_cause: usize,
    pub fault_sepc: usize,
    pub fault_stval: usize,
}

/// The empty record.
pub open spec fn empty_outcome() -> OutcomeSlot {
    OutcomeSlot {
        kind: OutcomeKind::Empty,
        exit_code: NO_EXIT_CODE,
        fault_cause: usize::MAX,
        fault_sepc: 0,
        fault_stval: 0,
    }
}

/// A record that the manager did not expect.
#[derive(Clone, Copy, PartialEq, Eq, Structural, Debug)]
pub enum OutcomeError {
    /// A fault was expected and something else was recorded.
    NotFault,
    /// An exit was expected and something else was recorded.
    NotExit,
    /// The recorded exit code does not fit in a byte.
    InvalidExitCode,
}

/// The record after the handler notes a fault taken with `frame`.
pub open spec fn with_fault(slot: OutcomeSlot, frame: TrapFrame) -> OutcomeSlot {
    OutcomeSlot {
        kind: OutcomeKind::Fault,
        fault_cause: frame.scause,
        fault_sepc: frame.sepc,
        fault_stval: frame.stval,
        ..slot
    }
}

/// The record after the handler notes an exit with `code`.
pub open spec fn with_exit(slot: OutcomeSlot, code: usize) -> OutcomeSlot {
    OutcomeSlot { kind: OutcomeKind::Exit, exit_code: code, ..slot }
}

/// What taking a fault from the record gives.
pub open spec fn fault_of(slot: OutcomeSlot) -> Result<FaultInfo, OutcomeError> {
    if slot.kind == OutcomeKind::Fault {
        Ok(FaultInfo { cause: slot.fault_cause, sepc: slot.fault_sepc, stval: slot.fault_stval })
    } else {
        Err(OutcomeError::NotFault)
    }
}

/// What taking an exit code from the record gives.
pub open spec fn exit_of(slot: OutcomeSlot) -> Result<u8, OutcomeError> {
    if slot.kind != OutcomeKind::Exit {
        Err(OutcomeError::NotExit)
    } else if slot.exit_code > 0xff {
        Err(OutcomeError::InvalidExitCode)
    } else {
        Ok(slot.exit_code as u8)
    }
}

impl OutcomeSlot {
    /// An empty record.
    pub fn new() -> (s: OutcomeSlot)
        ensures
            s == empty_outcome(),
    {
        OutcomeSlot {
            kind: OutcomeKind::Empty,
            exit_code: NO_EXIT_CODE,
            fault_cause: usize::MAX,
            fault_sepc: 0,
            fault_stval: 0,
        }
    }
}

/// Empties the record before a user run.
pub fn reset_outcome(slot: &mut OutcomeSlot)
    ensures
        *final(slot) == empty_outcome(),
{
    *slot = OutcomeSlot::new();
}

/// Takes the fault that the last run recorded; the record is no longer
/// marked either way.
pub fn take_fault(slot: &mut OutcomeSlot) -> (r: Result<FaultInfo, OutcomeError>)
    ensures
        *final(slot) == (OutcomeSlot { kind: OutcomeKind::Empty, ..*old(slot) }),
        r == fault_of(*old(slot)),
{
    let previous = slot.kind;
    slot.kind = OutcomeKind::Empty;
    if previous != OutcomeKind::Fault {
        return Err(OutcomeError::NotFault);
    }
    Ok(FaultInfo { cause: slot.fault_cause, sepc: slot.fault_sepc, stval: slot.fault_stval })
}

/// Takes the exit code that the last run recorded; the record is no longer
/// marked either way, and the code slot is emptied once an exit is taken.
pub fn take_exit(slot: &mut OutcomeSlot) -> (r: Result<u8, OutcomeError>)
    ensures
        r == exit_of(*old(slot)),
        old(slot).kind != OutcomeKind::Exit ==> *final(slot) == (OutcomeSlot {
            kind: OutcomeKind::Empty,
            ..*old(slot)
        }),
        old(slot).kind == OutcomeKind::Exit ==> *final(slot) == (OutcomeSlot {
            kind: OutcomeKind::Empty,
            exit_code: NO_EXIT_CODE,
            ..*old(slot)
        }),
{
    let previous = slot.kind;
    slot.kind = OutcomeKind::Empty;
    if previous != OutcomeKind::Exit {
        return Err(OutcomeError::NotExit);
    }
    let code = slot.exit_code;
    slot.exit_code = NO_EXIT_CODE;
    if code > 0xff {
        return Err(OutcomeError::InvalidExitCode);
    }
    Ok(code as u8)
}

/// A user trap outside the trusted boundary.
#[derive(Clone, Copy, PartialEq, Eq, Structural, Debug)]
pub enum BoundaryError {
    /// An interrupt reached the user trap path.
    UnexpectedInterrupt,
    /// The trap came from supervisor mode.
    FromSupervisor,
    /// The saved user stack pointer is not 16-byte aligned in the user stack.
    UserSpInvalid,
    /// The frame is not wholly in the trusted trap stack.
    FrameOutsideTrapStack,
    /// The kernel trap vector was not restored.
    StvecNotRestored,
}

/// What is wrong with a user trap's boundary, if anything, in the order of
/// `BoundaryError`.
pub open spec fn boundary_error(
    frame: TrapFrame,
    frame_addr: usize,
    s: Stacks,
    stvec: usize,
    trap_entry: usize,
) -> Option<BoundaryError> {
    if is_interrupt(frame.scause) {
        Some(BoundaryError::UnexpectedInterrupt)
    } else if frame.sstatus & SSTATUS_SPP != 0 {
        Some(BoundaryError::FromSupervisor)
    } else if !(s.user.start <= frame.x[2] < s.user.end) || frame.x[2] % 16 != 0 {
        Some(BoundaryError::UserSpInvalid)
    } else if frame_addr < s.trap.start || frame_end(frame_addr) > s.trap.end {
        Some(BoundaryError::FrameOutsideTrapStack)
    } else if stvec != trap_entry {
        Some(BoundaryError::StvecNotRestored)
    } else {
        None
    }
}

/// Checks that a user trap crossed the trusted boundary: an exception from
/// user mode, on a valid user stack, saved in the trap stack, with the
/// kernel vector restored. Returns the cause.
pub fn validate_boundary(
    frame: &TrapFrame,
    frame_addr: usize,
    s: Stacks,
    stvec: usize,
    trap_entry: usize,
) -> (r: Result<usize, BoundaryError>)
    ensures
        r == match boundary_error(*frame, frame_addr, s, stvec, trap_entry) {
            Some(e) => Err(e),
            None => Ok(frame.scause),
        },
{
    let (interrupt, _) = decode_scause(frame.scause);
    if interrupt {
        return Err(BoundaryError::UnexpectedInterrupt);
    }
    if frame.sstatus & SSTATUS_SPP != 0 {
        return Err(BoundaryError::FromSupervisor);
    }
    let sp = frame.x[2];
    assert(sp & 0xf == sp % 16) by (bit_vector);
    if !s.user.contains(sp) || sp & 0xf != 0 {
        return Err(BoundaryError::UserSpInvalid);
    }
    let end = match frame_addr.checked_add(crate::trap::TRAP_FRAME_SIZE) {
        Some(e) => e,
        None => usize::MAX,
    };
    if frame_addr < s.trap.start || end > s.trap.end {
        return Err(BoundaryError::FrameOutsideTrapStack);
    }
    if stvec != trap_entry {
        return Err(BoundaryError::StvecNotRestored);
    }
    Ok(frame.scause)
}

/// Whether `address` lies in `[start, end)`.
pub fn in_range(address: usize, start: usize, end: usize) -> (b: bool)
    ensures
        b == (start <= address < end),
{
    start <= address && address < end
}

/// Where the user programs of the error lesson live.
#[derive(Clone, Copy, PartialEq, Eq, Structural, Debug)]
pub struct UserLayout {
    pub stacks: Stacks,
    /// Kernel trap vector that the handler must find restored.
    pub trap_entry: usize,
    /// The one instruction that faults on purpose.
    pub fault_instruction: usize,
    /// The code of the user system call wrappers.
    pub api: Region,
    /// The `ecall` of the putchar wrapper.
    pub putchar_ecall: usize,
    /// The `ecall` of the exit wrapper.
    pub exit_ecall: usize,
}

/// A user trap that the kernel does not handle.
#[derive(Clone, Copy, PartialEq, Eq, Structural, Debug)]
pub enum UserTrapError {
    Boundary(BoundaryError),
    /// An exception other than the planned fault or an `ecall`.
    UnexpectedException(usize),
    /// An `ecall` outside the two system call wrappers.
    EcallOutsideApi(usize),
    /// Stepping over the `ecall` would overflow the PC.
    PcOverflow,
}

/// What is wrong with a user trap, if anything (see `UserTrapError`).
pub open spec fn user_trap_error(frame: TrapFrame, frame_addr: usize, stvec: usize, l: UserLayout) -> Option<
    UserTrapError,
> {
    let pc = frame.sepc;
    match boundary_error(frame, frame_addr, l.stacks, stvec, l.trap_entry) {
        Some(e) => Some(UserTrapError::Boundary(e)),
        None => if frame.scause == CAUSE_ILLEGAL_INSTRUCTION && pc == l.fault_instruction {
            None
        } else if frame.scause != CAUSE_USER_ECALL {
            Some(UserTrapError::UnexpectedException(frame.scause))
        } else if !(l.api.start <= pc < l.api.end) || (pc != l.putchar_ecall && pc
            != l.exit_ecall) {
            Some(UserTrapError::EcallOutsideApi(pc))
        } else if syscall_outcome(frame.x[17], frame.x[10]) is Return && pc + 4 > usize::MAX {
            Some(UserTrapError::PcOverflow)
        } else {
            None
        },
    }
}

/// Handles a user trap of the error lesson. The planned fault is recorded
/// (cause, PC, trap value) and ends the process. A system call from one of
/// the two wrappers is dispatched: one that returns gets its result in `a0`,
/// steps over the `ecall` and resumes with a trusted status; an exit
/// records its code and ends the process. Returns the action and the byte
/// that the call prints, if any. Any other trap is refused (see
/// `user_trap_error`), changing nothing.
pub fn handle_user_trap(
    frame: &mut TrapFrame,
    frame_addr: usize,
    stvec: usize,
    layout: UserLayout,
    slot: &mut OutcomeSlot,
) -> (r: Result<(usize, Option<u8>), UserTrapError>)
    ensures
        r is Err <==> user_trap_error(*old(frame), frame_addr, stvec, layout) is Some,
        r matches Err(e) ==> user_trap_error(*old(frame), frame_addr, stvec, layout) == Some(e)
            && *final(frame) == *old(frame) && *final(slot) == *old(slot),
        r is Ok && old(frame).scause == CAUSE_ILLEGAL_INSTRUCTION && old(frame).sepc
            == layout.fault_instruction ==> {
            &&& r == Ok::<(usize, Option<u8>), UserTrapError>((ACTION_TERMINATE_PROCESS, None))
            &&& *final(frame) == *old(frame)
            &&& *final(slot) == with_fault(*old(slot), *old(frame))
        },
        r is Ok && old(frame).scause == CAUSE_USER_ECALL ==> {
            let out = syscall_output(old(frame).x[17], old(frame).x[10]);
            match syscall_outcome(old(frame).x[17], old(frame).x[10]) {
                SyscallOutcome::Return(v) => {
                    &&& r == Ok::<(usize, Option<u8>), UserTrapError>((ACTION_RESUME_USER, out))
                    &&& final(frame).x@ == old(frame).x@.update(10, v as usize)
                    &&& final(frame).sepc == old(frame).sepc + 4
                    &&& final(frame).sstatus == user_sstatus(old(frame).sstatus)
                    &&& final(frame).scause == old(frame).scause
                    &&& final(frame).stval == old(frame).stval
                    &&& *final(slot) == *old(slot)
                },
                SyscallOutcome::Exit(code) => {
                    &&& r == Ok::<(usize, Option<u8>), UserTrapError>(
                        (ACTION_TERMINATE_PROCESS, out),
                    )
                    &&& *final(frame) == *old(frame)
                    &&& *final(slot) == with_exit(*old(slot), code as usize)
                },
            }
        },
{
    let cause = match validate_boundary(frame, frame_addr, layout.stacks, stvec, layout.trap_entry) {
        Ok(c) => c,
        Err(e) => return Err(UserTrapError::Boundary(e)),
    };
    let pc = frame.sepc;
    if cause == CAUSE_ILLEGAL_INSTRUCTION && pc == layout.fault_instruction {
        slot.fault_cause = cause;
        slot.fault_sepc = frame.sepc;
        slot.fault_stval = frame.stval;
        slot.kind = OutcomeKind::Fault;
        return Ok((ACTION_TERMINATE_PROCESS, None));
    }
    if cause != CAUSE_USER_ECALL {
        return Err(UserTrapError::UnexpectedException(cause));
    }
    if !in_range(pc, layout.api.start, layout.api.end) || (pc != layout.putchar_ecall && pc
        != layout.exit_ecall) {
        return Err(UserTrapError::EcallOutsideApi(pc));
    }
    let d = dispatch(frame.x[17], frame.x[10]);
    match d.outcome {
        SyscallOutcome::Return(result) => {
            if frame.sepc > usize::MAX - 4 {
                return Err(UserTrapError::PcOverflow);
            }
            frame.x[10] = result as usize;
            frame.sepc = frame.sepc + 4;
            frame.sstatus = trusted_user_sstatus(frame.sstatus);
            Ok((ACTION_RESUME_USER, d.output))
        },
        SyscallOutcome::Exit(code) => {
            slot.exit_code = code as usize;
            slot.kind = OutcomeKind::Exit;
            Ok((ACTION_TERMINATE_PROCESS, d.output))
        },
    }
}

/// Whether the user and trap stacks may be cleared while the kernel runs on
/// `sp`: only when `sp` is in neither of them.
pub fn may_clear_stacks(s: Stacks, sp: usize) -> (b: bool)
    ensures
        b == !((s.user.start <= sp < s.user.end) || (s.trap.start <= sp < s.trap.end)),
{
    !(s.user.contains(sp) || s.trap.contains(sp))
}

/// What is wrong with a process setup of the error lesson, if anything:
/// the stacks, enabled supervisor interrupts, then the initial user stack
/// pointer.
pub open spec fn prepare_error(s: Stacks, sie: usize) -> Option<SetupError> {
    if stacks_error(s) is Some {
        stacks_error(s)
    } else if sie != 0 {
        Some(SetupError::InterruptsEnabled)
    } else if !user_sp_ok(s) {
        Some(SetupError::UserSpInvalid)
    } else {
        None
    }
}

/// Prepares a process of the error lesson: checks as `prepare_error` lists,
/// then returns it running with its user runtime (see `is_prepared`).
pub fn prepare_process<'p>(pid: u64, program: &'p Program, s: Stacks, sie: usize, sstatus: usize) -> (r:
    Result<Process<'p>, SetupError>)
    ensures
        r is Err <==> prepare_error(s, sie) is Some,
        r matches Err(e) ==> prepare_error(s, sie) == Some(e),
        r matches Ok(p) ==> is_prepared(p, pid, *program, s, sstatus),
{
    match check_stacks(s) {
        Err(e) => return Err(e),
        Ok(()) => {},
    }
    if sie != 0 {
        return Err(SetupError::InterruptsEnabled);
    }
    let user_sp = match initial_sp(s) {
        Some(sp) => sp,
        None => return Err(SetupError::UserSpInvalid),
    };
    Ok(crate::user::start_process(pid, program, s, user_sp, sstatus))
}

/// How a user run ended other than the manager expected.
#[derive(Clone, Copy, PartialEq, Eq, Structural, Debug)]
pub enum RunError {
    /// The run did not come back with the terminate action on the manager's
    /// own stack.
    ContextNotRestored,
    /// The record does not hold what was expected.
    Outcome(OutcomeError),
    /// The fault is not the planned illegal instruction.
    WrongFault(FaultInfo),
    /// The process refused the final state change.
    Transition,
}

/// Concludes the run of the process that faults on purpose: the run came
/// back with the terminate action on the same manager stack, a fault is
/// recorded, it is the illegal instruction at `fault_instruction`, and the
/// process commits `Faulted` with it.
pub fn conclude_fault_run(
    process: &mut Process,
    action: usize,
    same_sp: bool,
    slot: &mut OutcomeSlot,
    fault_instruction: usize,
) -> (r: Result<FaultInfo, RunError>)
    ensures
        ({
            let info = FaultInfo {
                cause: old(slot).fault_cause,
                sepc: old(slot).fault_sepc,
                stval: old(slot).fault_stval,
            };
            r == if !(action == ACTION_TERMINATE_PROCESS && same_sp) {
                Err::<FaultInfo, RunError>(RunError::ContextNotRestored)
            } else if old(slot).kind != OutcomeKind::Fault {
                Err(RunError::Outcome(OutcomeError::NotFault))
            } else if !(info.cause == CAUSE_ILLEGAL_INSTRUCTION && info.sepc == fault_instruction) {
                Err(RunError::WrongFault(info))
            } else if old(process).spec_state() != ProcessState::Running {
                Err(RunError::Transition)
            } else {
                Ok(info)
            }
        }),
        !(action == ACTION_TERMINATE_PROCESS && same_sp) ==> *final(slot) == *old(slot),
        action == ACTION_TERMINATE_PROCESS && same_sp ==> *final(slot) == (OutcomeSlot {
            kind: OutcomeKind::Empty,
            ..*old(slot)
        }),
        r matches Ok(info) ==> final(process).spec_state() == ProcessState::Faulted(info),
        r is Err ==> final(process).spec_state() == old(process).spec_state(),
        final(process).spec_id() == old(process).spec_id(),
        final(process).spec_program() == old(process).spec_program(),
        final(process).spec_runtime() == old(process).spec_runtime(),
{
    if action != ACTION_TERMINATE_PROCESS || !same_sp {
        return Err(RunError::ContextNotRestored);
    }
    let info = match take_fault(slot) {
        Ok(i) => i,
        Err(e) => return Err(RunError::Outcome(e)),
    };
    if info.cause != CAUSE_ILLEGAL_INSTRUCTION || info.sepc != fault_instruction {
        return Err(RunError::WrongFault(info));
    }
    match process.finish_fault(info) {
        Ok(()) => Ok(info),
        Err(_) => Err(RunError::Transition),
    }
}

/// Concludes the run of a process that must exit normally: the run came
/// back with the terminate action on the same manager stack, an exit is
/// recorded with a byte-sized code, and the process commits `Exited` with
/// it. Returns the code.
pub fn conclude_exit_run(process: &mut Process, action: usize, same_sp: bool, slot: &mut OutcomeSlot) -> (r:
    Result<u8, RunError>)
    ensures
        r == if !(action == ACTION_TERMINATE_PROCESS && same_sp) {
            Err::<u8, RunError>(RunError::ContextNotRestored)
        } else if old(slot).kind != OutcomeKind::Exit {
            Err(RunError::Outcome(OutcomeError::NotExit))
        } else if old(slot).exit_code > 0xff {
            Err(RunError::Outcome(OutcomeError::InvalidExitCode))
        } else if old(process).spec_state() != ProcessState::Running {
            Err(RunError::Transition)
        } else {
            Ok(old(slot).exit_code as u8)
        },
        !(action == ACTION_TERMINATE_PROCESS && same_sp) ==> *final(slot) == *old(slot),
        action == ACTION_TERMINATE_PROCESS && same_sp && old(slot).kind != OutcomeKind::Exit
            ==> *final(slot) == (OutcomeSlot { kind: OutcomeKind::Empty, ..*old(slot) }),
        action == ACTION_TERMINATE_PROCESS && same_sp && old(slot).kind == OutcomeKind::Exit
            ==> *final(slot) == (OutcomeSlot {
            kind: OutcomeKind::Empty,
            exit_code: NO_EXIT_CODE,
            ..*old(slot)
        }),
        r matches Ok(code) ==> final(process).spec_state() == ProcessState::Exited(code as i32),
        r is Err ==> final(process).spec_state() == old(process).spec_state(),
        final(process).spec_id() == old(process).spec_id(),
        final(process).spec_program() == old(process).spec_program(),
        final(process).spec_runtime() == old(process).spec_runtime(),
{
    if action != ACTION_TERMINATE_PROCESS || !same_sp {
        return Err(RunError::ContextNotRestored);
    }
    let code = match take_exit(slot) {
        Ok(c) => c,
        Err(e) => return Err(RunError::Outcome(e)),
    };
    match process.finish_exit(code) {
        Ok(()) => Ok(code),
        Err(_) => Err(RunError::Transition),
    }
}

/// What the handler records is what the manager takes: after a fault is
/// noted, taking the fault gives the frame's cause, PC and trap value; after
/// an exit with a byte-sized code is noted, taking the exit gives that code.
pub proof fn lemma_outcome_round_trip(slot: OutcomeSlot, frame: TrapFrame, code: u8)
    ensures
        fault_of(with_fault(slot, frame)) == Ok::<FaultInfo, OutcomeError>(
            FaultInfo { cause: frame.scause, sepc: frame.sepc, stval: frame.stval },
        ),
        exit_of(with_exit(slot, code as usize)) == Ok::<u8, OutcomeError>(code),
{
}

} // verus!
