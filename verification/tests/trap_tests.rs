use neonos::trap::{
    check_stvec, check_trap_entry, decode_scause, report, trusted_user_sstatus, TrapFrame,
    TrapInitError, KERNEL_CONTEXT_SIZE, KCTX_S11, KCTX_SP, SCAUSE, SEPC, SSTATUS, STVAL,
    TRAP_FRAME_SIZE,
};

#[test]
fn layout_constants() {
    assert_eq!(TRAP_FRAME_SIZE, 288);
    assert_eq!(TRAP_FRAME_SIZE, std::mem::size_of::<TrapFrame>());
    assert_eq!((SSTATUS, SEPC, SCAUSE, STVAL), (256, 264, 272, 280));
    assert_eq!(KERNEL_CONTEXT_SIZE, 128);
    assert_eq!(KERNEL_CONTEXT_SIZE, std::mem::size_of::<neonos::trap::KernelContext>());
    assert_eq!((KCTX_SP, KCTX_S11), (8, 120));
}

#[test]
fn decode_exception_and_interrupt() {
    assert_eq!(decode_scause(2), (false, 2));
    assert_eq!(decode_scause((1usize << 63) | 5), (true, 5));
    assert_eq!(decode_scause(1usize << 63), (true, 0));
    assert_eq!(decode_scause(usize::MAX), (true, usize::MAX >> 1));
}

#[test]
fn trusted_status_clears_three_bits() {
    assert_eq!(trusted_user_sstatus(0x6122), 0x6000);
    assert_eq!(trusted_user_sstatus(usize::MAX), usize::MAX & !0x122);
    assert_eq!(trusted_user_sstatus(0), 0);
}

#[test]
fn trap_entry_alignment() {
    assert_eq!(check_trap_entry(0x8020_0000), Ok(()));
    assert_eq!(check_trap_entry(0x8020_0002), Err(TrapInitError::Misaligned(0x8020_0002)));
    assert_eq!(check_trap_entry(0x8020_0001), Err(TrapInitError::Misaligned(0x8020_0001)));
}

#[test]
fn stvec_readback() {
    assert_eq!(check_stvec(0x100, 0x100), Ok(()));
    assert_eq!(
        check_stvec(0x100, 0x104),
        Err(TrapInitError::ReadbackMismatch { expected: 0x100, actual: 0x104 })
    );
}

#[test]
fn trap_report() {
    let mut f = TrapFrame::zero();
    f.scause = 2;
    f.sepc = 0x8020_1000;
    let r = report(&f, 0x8020_1000);
    assert!(!r.interrupt);
    assert_eq!(r.cause_code, 2);
    assert!(r.trigger_match);
    f.scause = (1usize << 63) | 5;
    let r = report(&f, 0x8020_1004);
    assert!(r.interrupt);
    assert_eq!(r.cause_code, 5);
    assert!(!r.trigger_match);
}
