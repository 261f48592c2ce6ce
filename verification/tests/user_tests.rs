use neonos::memory::Region;
use neonos::process::{ProcessState, Program};
use neonos::trap::TrapFrame;
use neonos::user::{
    check_stacks, gather_evidence, initial_sp, prepare_lesson07, SetupError, Stacks, STACK_BYTES,
};

fn stacks() -> Stacks {
    Stacks {
        user: Region::new(0x8030_0000, 0x8030_0000 + STACK_BYTES),
        trap: Region::new(0x8030_4000, 0x8030_4000 + STACK_BYTES),
        boot: Region::new(0x8020_5000, 0x8021_5000),
    }
}

fn program() -> Program {
    Program::from_linked("user-ecall", 0x8040_0000, 0x8040_0000, 0x8040_0010).unwrap()
}

#[test]
fn stacks_checked() {
    assert_eq!(check_stacks(stacks()), Ok(()));
    let mut s = stacks();
    s.trap.end -= 1;
    assert_eq!(check_stacks(s), Err(SetupError::StackSize));
    let mut s = stacks();
    s.trap = Region::new(s.user.start + 16, s.user.start + 16 + STACK_BYTES);
    assert_eq!(check_stacks(s), Err(SetupError::StacksOverlap));
    let mut s = stacks();
    s.boot = Region::new(s.trap.end - 1, s.trap.end + 100);
    assert_eq!(check_stacks(s), Err(SetupError::StacksOverlap));
}

#[test]
fn initial_sp_is_16_below_top() {
    assert_eq!(initial_sp(stacks()), Some(0x8030_4000 - 16));
    let mut s = stacks();
    s.user = Region::new(0x8030_0008, 0x8030_0008 + STACK_BYTES);
    assert_eq!(initial_sp(s), None);
}

#[test]
fn lesson07_prepares_running_process() {
    let program = program();
    let p = prepare_lesson07(1, &program, 0x8040_0004, stacks(), 0, 0x8000_0000_0000_6122)
        .unwrap();
    assert_eq!(p.state(), ProcessState::Running);
    assert_eq!(p.id(), 1);
    let rt = p.user_runtime().unwrap();
    assert_eq!(rt.user_stack, stacks().user);
    assert_eq!(rt.trap_stack, stacks().trap);
    assert_eq!(rt.context.sepc, 0x8040_0000);
    assert_eq!(rt.context.x[2], 0x8030_4000 - 16);
    assert_eq!(rt.context.sstatus, 0x8000_0000_0000_6000);
    assert!(rt.context.x.iter().enumerate().all(|(i, &v)| i == 2 || v == 0));
}

#[test]
fn lesson07_setup_errors_in_order() {
    let program = program();
    let mut s = stacks();
    s.user.end += 16;
    assert!(matches!(prepare_lesson07(1, &program, 0x8040_0004, s, 1, 0), Err(SetupError::StackSize)));
    let mut s = stacks();
    s.user = Region::new(0x8030_0008, 0x8030_0008 + STACK_BYTES);
    s.trap = Region::new(0x8031_0000, 0x8031_0000 + STACK_BYTES);
    assert!(matches!(prepare_lesson07(1, &program, 0x8040_0004, s, 1, 0), Err(SetupError::UserSpInvalid)));
    let mut s = stacks();
    s.trap = Region::new(0x8031_0004, 0x8031_0004 + STACK_BYTES);
    assert!(matches!(
        prepare_lesson07(1, &program, 0x8040_0004, s, 1, 0),
        Err(SetupError::TrapStackMisaligned)
    ));
    let odd = Program::from_linked("odd", 0x8040_0001, 0x8040_0000, 0x8040_0010).unwrap();
    assert!(matches!(
        prepare_lesson07(1, &odd, 0x8040_0004, stacks(), 1, 0),
        Err(SetupError::EntryMisaligned)
    ));
    assert!(matches!(
        prepare_lesson07(1, &program, 0x8040_0010, stacks(), 1, 0),
        Err(SetupError::EcallOutsideCode)
    ));
    assert!(matches!(
        prepare_lesson07(1, &program, 0x8040_0004, stacks(), 0x20, 0),
        Err(SetupError::InterruptsEnabled)
    ));
}

fn ecall_frame() -> TrapFrame {
    let mut f = TrapFrame::zero();
    f.scause = 8;
    f.sepc = 0x8040_0004;
    f.x[2] = 0x8030_4000 - 16;
    f.x[10] = 85;
    f.x[17] = 1;
    f
}

#[test]
fn evidence_of_user_ecall() {
    let frame_addr = 0x8030_8000 - 288;
    let e = gather_evidence(
        &ecall_frame(),
        frame_addr,
        program().code_range(),
        0x8040_0004,
        stacks(),
        0x8020_0100,
        0x8020_0100,
    );
    assert!(e.ok);
    assert_eq!(e.origin_spp, 0);
    assert!(e.frame_in_trap_stack && e.user_sp_ok && e.sepc_in_user_code && e.ecall_match);
    assert!(e.kernel_stvec_restored);
    assert_eq!(e.cause_code, 8);
}

#[test]
fn evidence_flags_problems() {
    let mut f = ecall_frame();
    f.sstatus = 0x100;
    f.x[2] += 8;
    let e = gather_evidence(&f, usize::MAX - 8, program().code_range(), 0x8040_0008, stacks(), 1, 2);
    assert!(!e.ok);
    assert_eq!(e.origin_spp, 1);
    assert!(!e.frame_in_trap_stack);
    assert!(!e.user_sp_ok);
    assert!(e.sepc_in_user_code);
    assert!(!e.ecall_match);
    assert!(!e.kernel_stvec_restored);
    let mut f = ecall_frame();
    f.x[10] = 84;
    let e = gather_evidence(
        &f,
        0x8030_4000,
        program().code_range(),
        0x8040_0004,
        stacks(),
        2,
        2,
    );
    assert!(e.frame_in_trap_stack);
    assert!(!e.ok);
}
