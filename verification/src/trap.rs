//! Trap frame and kernel context layouts, `scause`/`sstatus` decoding, and
//! the checks of the kernel trap vector.

use vstd::prelude::*;

verus! {

/// Size in bytes of one saved register slot.
pub const SLOT_SIZE: usize = 8;

/// Size in bytes of a saved `TrapFrame`: 32 integer registers and four CSRs.
pub const TRAP_FRAME_SIZE: usize = 36 * SLOT_SIZE;

/// Byte offsets of the CSR slots inside a `TrapFrame`.
pub const SSTATUS: usize = 32 * SLOT_SIZE;
pub const SEPC: usize = 33 * SLOT_SIZE;
pub const SCAUSE: usize = 34 * SLOT_SIZE;
pub const STVAL: usize = 35 * SLOT_SIZE;

/// The complete integer state saved when a hart traps.
#[derive(Clone, Copy)]
pub struct TrapFrame {
    pub x: [usize; 32],
    pub sstatus: usize,
    pub sepc: usize,
    pub scause: usize,
    pub stval: usize,
}

impl TrapFrame {
    /// Whether every register and CSR of the frame is zero.
    pub open spec fn is_zero(self) -> bool {
        &&& forall|i: int| 0 <= i < 32 ==> self.x[i] == 0
        &&& self.sstatus == 0
        &&& self.sepc == 0
        &&& self.scause == 0
        &&& self.stval == 0
    }

    /// A frame with every register and CSR zero.
    pub fn zero() -> (f: TrapFrame)
        ensures
            f.is_zero(),
    {
        TrapFrame { x: [0usize; 32], sstatus: 0, sepc: 0, scause: 0, stval: 0 }
    }
}

/// The callee-saved kernel state that the user-run bridge keeps so that the
/// kernel caller resumes unchanged.
pub struct KernelContext {
    pub ra: usize,
    pub sp: usize,
    pub gp: usize,
    pub tp: usize,
    pub s: [usize; 12],
}

/// Size in bytes of a saved `KernelContext`, and the byte offsets of its slots.
pub const KERNEL_CONTEXT_SIZE: usize = 16 * SLOT_SIZE;
pub const KCTX_RA: usize = 0 * SLOT_SIZE;
pub const KCTX_SP: usize = 1 * SLOT_SIZE;
pub const KCTX_GP: usize = 2 * SLOT_SIZE;
pub const KCTX_TP: usize = 3 * SLOT_SIZE;
pub const KCTX_S0: usize = 4 * SLOT_SIZE;
pub const KCTX_S11: usize = 15 * SLOT_SIZE;

/// The top bit of `scause` (bit 63 on RV64): set for interrupts, clear for
/// exceptions.
pub open spec fn interrupt_bit() -> usize {
    !(!0usize >> 1usize)
}

/// `sstatus` bits that a trusted user status must have clear.
pub const SSTATUS_SIE: usize = 0x2;
pub const SSTATUS_SPIE: usize = 0x20;
pub const SSTATUS_SPP: usize = 0x100;

/// Whether `scause` reports an interrupt.
pub open spec fn is_interrupt(scause: usize) -> bool {
    scause >= interrupt_bit()
}

/// The cause code: `scause` without its interrupt bit.
pub open spec fn cause_code(scause: usize) -> usize {
    (scause % interrupt_bit()) as usize
}

/// `v` with the bits of `mask` cleared and every other bit kept.
pub open spec fn bits_cleared(v: usize, mask: usize) -> usize {
    v & !mask
}

/// The user `sstatus` derived from `v`: `SPP`, `SPIE` and `SIE` cleared.
pub open spec fn user_sstatus(v: usize) -> usize {
    bits_cleared(v, SSTATUS_SPP | SSTATUS_SPIE | SSTATUS_SIE)
}

/// Splits `scause` into its interrupt flag and cause code.
pub fn decode_scause(scause: usize) -> (r: (bool, usize))
    ensures
        r.0 == is_interrupt(scause),
        r.1 == cause_code(scause),
{
    let bit = 1usize << (usize::BITS - 1);
    let interrupt = scause & bit != 0;
    let code = scause & !bit;
    assert(bit == !(!0usize >> 1usize) && (scause & bit != 0) == (scause >= bit) && scause & !bit
        == scause % bit) by (bit_vector)
        requires
            bit == 1usize << ((usize::BITS - 1) as u32),
    ;
    (interrupt, code)
}

/// Clears `SPP`, `SPIE` and `SIE` so that `sret` enters user mode with
/// supervisor interrupts off.
pub fn trusted_user_sstatus(value: usize) -> (r: usize)
    ensures
        r == user_sstatus(value),
        r & SSTATUS_SPP == 0,
        r & SSTATUS_SPIE == 0,
        r & SSTATUS_SIE == 0,
{
    let r = value & !(SSTATUS_SPP | SSTATUS_SPIE | SSTATUS_SIE);
    assert(r & 0x100usize == 0 && r & 0x20usize == 0 && r & 0x2usize == 0) by (bit_vector)
        requires
            r == value & !(0x100usize | 0x20usize | 0x2usize),
    ;
    r
}

/// A trap vector that cannot be installed.
#[derive(Clone, Copy, PartialEq, Eq, Structural, Debug)]
pub enum TrapInitError {
    /// The entry is not 4-byte aligned (direct mode needs the low two bits
    /// clear).
    Misaligned(usize),
    /// `stvec` reads back another value than was written.
    ReadbackMismatch { expected: usize, actual: usize },
}

/// Checks that `entry` can be written to `stvec` in direct mode.
pub fn check_trap_entry(entry: usize) -> (r: Result<(), TrapInitError>)
    ensures
        r == if entry % 4 != 0 {
            Err(TrapInitError::Misaligned(entry))
        } else {
            Ok(())
        },
{
    assert(entry & 0b11 == entry % 4) by (bit_vector);
    if entry & 0b11 != 0 {
        return Err(TrapInitError::Misaligned(entry));
    }
    Ok(())
}

/// Checks that `stvec` holds the entry that was written.
pub fn check_stvec(expected: usize, actual: usize) -> (r: Result<(), TrapInitError>)
    ensures
        r == if actual != expected {
            Err(TrapInitError::ReadbackMismatch { expected, actual })
        } else {
            Ok(())
        },
{
    if actual != expected {
        return Err(TrapInitError::ReadbackMismatch { expected, actual });
    }
    Ok(())
}

/// What the kernel trap handler reports about a trap.
#[derive(Clone, Copy, PartialEq, Eq, Structural, Debug)]
pub struct TrapReport {
    pub interrupt: bool,
    pub cause_code: usize,
    /// The trap happened at the planned trigger instruction.
    pub trigger_match: bool,
}

/// Decodes a kernel trap for the report, given the trigger's address.
pub fn report(frame: &TrapFrame, trigger: usize) -> (r: TrapReport)
    ensures
        r == (TrapReport {
            interrupt: is_interrupt(frame.scause),
            cause_code: cause_code(frame.scause),
            trigger_match: frame.sepc == trigger,
        }),
{
    let (interrupt, code) = decode_scause(frame.scause);
    TrapReport { interrupt, cause_code: code, trigger_match: frame.sepc == trigger }
}

/// Splitting `scause` loses nothing: the interrupt flag and the cause code
/// together give back `scause`, and the cause code never has the top bit.
pub proof fn lemma_scause_split(scause: usize)
    ensures
        cause_code(scause) < interrupt_bit(),
        scause == cause_code(scause) + if is_interrupt(scause) {
            interrupt_bit() as int
        } else {
            0
        },
{
    let b = interrupt_bit();
    assert(b > 0 && scause < 2 * b) by (bit_vector)
        requires
            b == !(!0usize >> 1usize),
    ;
    if scause >= b {
        vstd::arithmetic::div_mod::lemma_fundamental_div_mod_converse(
            scause as int,
            b as int,
            1,
            scause - b,
        );
    } else {
        vstd::arithmetic::div_mod::lemma_fundamental_div_mod_converse(
            scause as int,
            b as int,
            0,
            scause as int,
        );
    }
}

/// A trusted user status returns to user mode with supervisor interrupts
/// off and keeps every other bit: applying it twice changes nothing more.
pub proof fn lemma_user_sstatus_idempotent(v: usize)
    ensures
        user_sstatus(user_sstatus(v)) == user_sstatus(v),
        user_sstatus(v) & SSTATUS_SPP == 0,
        user_sstatus(v) & !(SSTATUS_SPP | SSTATUS_SPIE | SSTATUS_SIE) == v & !(SSTATUS_SPP
            | SSTATUS_SPIE | SSTATUS_SIE),
{
    let u = v & !(0x100usize | 0x20usize | 0x2usize);
    assert(u & !(0x100usize | 0x20usize | 0x2usize) == u && u & 0x100usize == 0) by (bit_vector)
        requires
            u == v & !(0x100usize | 0x20usize | 0x2usize),
    ;
}

} // verus!
