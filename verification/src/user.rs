//! Entering user mode for the first time: stack and program checks, the
//! initial process state, and the evidence of the first user trap.

use vstd::prelude::*;

use crate::memory::Region;
use crate::process::{Process, ProcessState, Program, UserContext, UserRuntime};
use crate::trap::{
    TrapFrame, TRAP_FRAME_SIZE, SSTATUS_SPP, decode_scause, is_interrupt, cause_code,
    trusted_user_sstatus, user_sstatus,
};

verus! {

/// Size in bytes of the user stack and of the user trap stack.
pub const STACK_BYTES: usize = 16 * 1024;

/// Distance of the initial user stack pointer below the stack top.
pub const USER_SP_GAP: usize = 16;

/// The stacks that a user run involves.
#[derive(Clone, Copy, PartialEq, Eq, Structural, Debug)]
pub struct Stacks {
    pub user: Region,
    pub trap: Region,
    pub boot: Region,
}

/// Why a user process cannot be entered.
#[derive(Clone, Copy, PartialEq, Eq, Structural, Debug)]
pub enum SetupError {
    /// The user or trap stack does not have `STACK_BYTES`.
    StackSize,
    /// Two of the user, trap and boot stacks overlap.
    StacksOverlap,
    /// Supervisor interrupts are enabled (`sie` is not zero).
    InterruptsEnabled,
    /// The initial user stack pointer is not 16-byte aligned inside the user
    /// stack.
    UserSpInvalid,
    /// The top of the trap stack is not 16-byte aligned.
    TrapStackMisaligned,
    /// The user entry is not 2-byte aligned.
    EntryMisaligned,
    /// The expected `ecall` is outside the program's code.
    EcallOutsideCode,
}

/// Number of bytes in a region; an inverted region has none.
pub open spec fn region_size(r: Region) -> int {
    if r.start <= r.end {
        r.end - r.start
    } else {
        0
    }
}

/// Whether two regions overlap, each starting before the other ends.
pub open spec fn regions_overlap(a: Region, b: Region) -> bool {
    a.start < b.end && b.start < a.end
}

/// The initial user stack pointer: 16 bytes below the user stack top.
pub open spec fn initial_user_sp(s: Stacks) -> int {
    s.user.end - USER_SP_GAP
}

/// What is wrong with the stacks for a user run, if anything: wrong sizes,
/// then overlap.
pub open spec fn stacks_error(s: Stacks) -> Option<SetupError> {
    if region_size(s.user) != STACK_BYTES || region_size(s.trap) != STACK_BYTES {
        Some(SetupError::StackSize)
    } else if regions_overlap(s.user, s.trap) || regions_overlap(s.user, s.boot)
        || regions_overlap(s.trap, s.boot) {
        Some(SetupError::StacksOverlap)
    } else {
        None
    }
}

/// Whether the initial user stack pointer is 16-byte aligned inside the user
/// stack.
pub open spec fn user_sp_ok(s: Stacks) -> bool {
    initial_user_sp(s) % 16 == 0 && s.user.start <= initial_user_sp(s) < s.user.end
}

/// Checks the sizes and the separation of the stacks.
pub fn check_stacks(s: Stacks) -> (r: Result<(), SetupError>)
    ensures
        r == match stacks_error(s) {
            Some(e) => Err(e),
            None => Ok(()),
        },
{
    if s.user.size() != STACK_BYTES || s.trap.size() != STACK_BYTES {
        return Err(SetupError::StackSize);
    }
    if s.user.overlaps(s.trap) || s.user.overlaps(s.boot) || s.trap.overlaps(s.boot) {
        return Err(SetupError::StacksOverlap);
    }
    Ok(())
}

/// The initial user stack pointer of well-sized stacks, if it is 16-byte
/// aligned inside the user stack.
pub fn initial_sp(s: Stacks) -> (r: Option<usize>)
    requires
        region_size(s.user) == STACK_BYTES,
    ensures
        r is Some <==> user_sp_ok(s),
        r matches Some(sp) ==> sp == initial_user_sp(s),
{
    let sp = s.user.end - USER_SP_GAP;
    assert(sp & 0xf == sp % 16) by (bit_vector);
    if sp & 0xf != 0 || !s.user.contains(sp) {
        None
    } else {
        Some(sp)
    }
}

/// The process state that a prepared user run hands over: running, with the
/// stacks and an initial context at the program entry, on the initial user
/// stack pointer, with the trusted user status.
pub open spec fn is_prepared(p: Process, pid: u64, program: Program, s: Stacks, sstatus: usize) -> bool {
    &&& p.spec_id() == pid
    &&& p.spec_program() == program
    &&& p.spec_state() == ProcessState::Running
    &&& p.spec_runtime() matches Some(rt) && {
        &&& rt.user_stack == s.user
        &&& rt.trap_stack == s.trap
        &&& rt.context.sepc == program.spec_entry()
        &&& rt.context.sstatus == user_sstatus(sstatus)
        &&& rt.context.x[2] == initial_user_sp(s)
        &&& forall|i: int| 0 <= i < 32 && i != 2 ==> rt.context.x[i] == 0
    }
}

/// Builds the running process of a checked user run.
pub(crate) fn start_process<'p>(pid: u64, program: &'p Program, s: Stacks, user_sp: usize, sstatus: usize) -> (p:
    Process<'p>)
    requires
        user_sp == initial_user_sp(s),
    ensures
        is_prepared(p, pid, *program, s, sstatus),
{
    let context = UserContext::new(program.entry(), user_sp, trusted_user_sstatus(sstatus));
    let runtime = UserRuntime { user_stack: s.user, trap_stack: s.trap, context };
    let mut process = Process::new(pid, program);
    process.attach_user_runtime(runtime);
    let started = process.start();
    assert(started is Ok);
    process
}

/// What is wrong with the first user run, if anything, in the order
/// checked: the stacks, the initial user stack pointer, the trap stack
/// alignment, the entry alignment, the place of the expected `ecall`, and
/// enabled supervisor interrupts.
pub open spec fn lesson07_error(program: Program, expected_ecall: usize, s: Stacks, sie: usize) -> Option<
    SetupError,
> {
    if stacks_error(s) is Some {
        stacks_error(s)
    } else if !user_sp_ok(s) {
        Some(SetupError::UserSpInvalid)
    } else if s.trap.end % 16 != 0 {
        Some(SetupError::TrapStackMisaligned)
    } else if program.spec_entry() % 2 != 0 {
        Some(SetupError::EntryMisaligned)
    } else if !(program.spec_code().start <= expected_ecall < program.spec_code().end) {
        Some(SetupError::EcallOutsideCode)
    } else if sie != 0 {
        Some(SetupError::InterruptsEnabled)
    } else {
        None
    }
}

/// Prepares the first user run: checks the stacks and the program as
/// `lesson07_error` lists, then returns the running process with its user
/// runtime (see `is_prepared`). `sstatus` is the current supervisor status
/// and `sie` the supervisor interrupt enables.
pub fn prepare_lesson07<'p>(
    pid: u64,
    program: &'p Program,
    expected_ecall: usize,
    s: Stacks,
    sie: usize,
    sstatus: usize,
) -> (r: Result<Process<'p>, SetupError>)
    ensures
        r is Err <==> lesson07_error(*program, expected_ecall, s, sie) is Some,
        r matches Err(e) ==> lesson07_error(*program, expected_ecall, s, sie) == Some(e),
        r matches Ok(p) ==> is_prepared(p, pid, *program, s, sstatus),
{
    match check_stacks(s) {
        Err(e) => return Err(e),
        Ok(()) => {},
    }
    let user_sp = match initial_sp(s) {
        Some(sp) => sp,
        None => return Err(SetupError::UserSpInvalid),
    };
    let top = s.trap.end;
    assert(top & 0xf == top % 16) by (bit_vector);
    if top & 0xf != 0 {
        return Err(SetupError::TrapStackMisaligned);
    }
    let entry = program.entry();
    assert(entry & 0x1 == entry % 2) by (bit_vector);
    if entry & 0x1 != 0 {
        return Err(SetupError::EntryMisaligned);
    }
    if !program.code_range().contains(expected_ecall) {
        return Err(SetupError::EcallOutsideCode);
    }
    if sie != 0 {
        return Err(SetupError::InterruptsEnabled);
    }
    Ok(start_process(pid, program, s, user_sp, sstatus))
}

/// What the trap handler of the first user run observed.
#[derive(Clone, Copy, PartialEq, Eq, Structural, Debug)]
pub struct UserTrapEvidence {
    /// The privilege the trap came from (`SPP`): 0 for user mode.
    pub origin_spp: usize,
    pub interrupt: bool,
    pub cause_code: usize,
    /// The frame lies wholly in the trap stack.
    pub frame_in_trap_stack: bool,
    /// The saved user stack pointer is 16-byte aligned in the user stack.
    pub user_sp_ok: bool,
    pub sepc_in_user_code: bool,
    pub ecall_match: bool,
    pub kernel_stvec_restored: bool,
    /// All of the above as expected, with `a0` = 85 and `a7` = 1.
    pub ok: bool,
}

/// Where the frame ends, saturating at the top of the address space.
pub open spec fn frame_end(frame_addr: usize) -> usize {
    if frame_addr + TRAP_FRAME_SIZE <= usize::MAX {
        (frame_addr + TRAP_FRAME_SIZE) as usize
    } else {
        usize::MAX
    }
}

/// The evidence that a trap at `frame_addr` with `frame` gives.
pub open spec fn evidence_of(
    frame: TrapFrame,
    frame_addr: usize,
    code: Region,
    expected_ecall: usize,
    s: Stacks,
    stvec: usize,
    kernel_entry: usize,
) -> UserTrapEvidence {
    let origin_spp: usize = if frame.sstatus & SSTATUS_SPP != 0 {
        1
    } else {
        0
    };
    let in_trap = s.trap.start <= frame_addr && frame_end(frame_addr) <= s.trap.end;
    let sp_ok = s.user.start <= frame.x[2] < s.user.end && frame.x[2] % 16 == 0;
    let in_code = code.start <= frame.sepc < code.end;
    let restored = stvec == kernel_entry;
    UserTrapEvidence {
        origin_spp,
        interrupt: is_interrupt(frame.scause),
        cause_code: cause_code(frame.scause),
        frame_in_trap_stack: in_trap,
        user_sp_ok: sp_ok,
        sepc_in_user_code: in_code,
        ecall_match: frame.sepc == expected_ecall,
        kernel_stvec_restored: restored,
        ok: origin_spp == 0 && !is_interrupt(frame.scause) && cause_code(frame.scause) == 8
            && in_code && frame.sepc == expected_ecall && sp_ok && in_trap && frame.x[10] == 85
            && frame.x[17] == 1 && restored,
    }
}

/// Gathers the evidence that the first user run really trapped from user
/// mode with its `ecall` (see `evidence_of`).
pub fn gather_evidence(
    frame: &TrapFrame,
    frame_addr: usize,
    code: Region,
    expected_ecall: usize,
    s: Stacks,
    stvec: usize,
    kernel_entry: usize,
) -> (e: UserTrapEvidence)
    ensures
        e == evidence_of(*frame, frame_addr, code, expected_ecall, s, stvec, kernel_entry),
{
    let (interrupt, code_num) = decode_scause(frame.scause);
    let status = frame.sstatus;
    let spp_bits = status & SSTATUS_SPP;
    let origin_spp = spp_bits >> 8;
    assert(origin_spp == if spp_bits != 0 { 1usize } else { 0usize }) by (bit_vector)
        requires
            spp_bits == status & 0x100usize,
            origin_spp == spp_bits >> 8,
    ;
    let end = match frame_addr.checked_add(TRAP_FRAME_SIZE) {
        Some(e) => e,
        None => usize::MAX,
    };
    let in_trap = s.trap.start <= frame_addr && end <= s.trap.end;
    let sp = frame.x[2];
    assert(sp & 0xf == sp % 16) by (bit_vector);
    let sp_ok = s.user.contains(sp) && sp & 0xf == 0;
    let in_code = code.start <= frame.sepc && frame.sepc < code.end;
    let restored = stvec == kernel_entry;
    let ok = origin_spp == 0 && !interrupt && code_num == 8 && in_code && frame.sepc
        == expected_ecall && sp_ok && in_trap && frame.x[10] == 85 && frame.x[17] == 1 && restored;
    UserTrapEvidence {
        origin_spp,
        interrupt,
        cause_code: code_num,
        frame_in_trap_stack: in_trap,
        user_sp_ok: sp_ok,
        sepc_in_user_code: in_code,
        ecall_match: frame.sepc == expected_ecall,
        kernel_stvec_restored: restored,
        ok,
    }
}

} // verus!
