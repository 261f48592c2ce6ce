use neonos::memory::Region;
use neonos::process::{FaultInfo, Process, ProcessState, Program};
use neonos::trap::TrapFrame;
use neonos::user::{SetupError, Stacks, STACK_BYTES};
use neonos::user10::{
    conclude_exit_run, conclude_fault_run, handle_user_trap, in_range, may_clear_stacks,
    prepare_process, reset_outcome, take_exit, take_fault, validate_boundary, BoundaryError,
    OutcomeError, OutcomeKind, OutcomeSlot, RunError, UserLayout, UserTrapError,
    ACTION_RESUME_USER, ACTION_TERMINATE_PROCESS, NO_EXIT_CODE,
};

fn stacks() -> Stacks {
    Stacks {
        user: Region::new(0x8030_0000, 0x8030_0000 + STACK_BYTES),
        trap: Region::new(0x8030_4000, 0x8030_4000 + STACK_BYTES),
        boot: Region::new(0x8020_5000, 0x8021_5000),
    }
}

fn layout() -> UserLayout {
    UserLayout {
        stacks: stacks(),
        trap_entry: 0x8020_0100,
        fault_instruction: 0x8040_0008,
        api: Region::new(0x8041_0000, 0x8041_0020),
        putchar_ecall: 0x8041_0004,
        exit_ecall: 0x8041_0014,
    }
}

const FRAME_ADDR: usize = 0x8030_8000 - 288;

fn frame(scause: usize, sepc: usize, a7: usize, a0: usize) -> TrapFrame {
    let mut f = TrapFrame::zero();
    f.scause = scause;
    f.sepc = sepc;
    f.stval = 0x1234;
    f.x[2] = 0x8030_4000 - 16;
    f.x[17] = a7;
    f.x[10] = a0;
    f
}

#[test]
fn outcome_slot_cycle() {
    let mut slot = OutcomeSlot::new();
    assert_eq!(take_fault(&mut slot), Err(OutcomeError::NotFault));
    assert_eq!(take_exit(&mut slot), Err(OutcomeError::NotExit));
    slot.kind = OutcomeKind::Exit;
    slot.exit_code = 3;
    assert_eq!(take_exit(&mut slot), Ok(3));
    assert_eq!(slot.exit_code, NO_EXIT_CODE);
    assert_eq!(slot.kind, OutcomeKind::Empty);
    slot.kind = OutcomeKind::Exit;
    slot.exit_code = 256;
    assert_eq!(take_exit(&mut slot), Err(OutcomeError::InvalidExitCode));
    reset_outcome(&mut slot);
    assert_eq!(slot, OutcomeSlot::new());
}

#[test]
fn boundary_checks() {
    let l = layout();
    let f = frame(8, 0x8041_0004, 1, 65);
    assert_eq!(validate_boundary(&f, FRAME_ADDR, l.stacks, 0x8020_0100, 0x8020_0100), Ok(8));
    let mut g = f;
    g.scause = (1usize << 63) | 5;
    assert_eq!(
        validate_boundary(&g, FRAME_ADDR, l.stacks, 1, 1),
        Err(BoundaryError::UnexpectedInterrupt)
    );
    let mut g = f;
    g.sstatus = 0x100;
    assert_eq!(validate_boundary(&g, FRAME_ADDR, l.stacks, 1, 1), Err(BoundaryError::FromSupervisor));
    let mut g = f;
    g.x[2] = 0x8030_4000;
    assert_eq!(validate_boundary(&g, FRAME_ADDR, l.stacks, 1, 1), Err(BoundaryError::UserSpInvalid));
    let mut g = f;
    g.x[2] -= 4;
    assert_eq!(validate_boundary(&g, FRAME_ADDR, l.stacks, 1, 1), Err(BoundaryError::UserSpInvalid));
    assert_eq!(
        validate_boundary(&f, FRAME_ADDR + 8, l.stacks, 1, 1),
        Err(BoundaryError::FrameOutsideTrapStack)
    );
    assert_eq!(
        validate_boundary(&f, usize::MAX - 4, l.stacks, 1, 1),
        Err(BoundaryError::FrameOutsideTrapStack)
    );
    assert_eq!(validate_boundary(&f, FRAME_ADDR, l.stacks, 1, 2), Err(BoundaryError::StvecNotRestored));
}

#[test]
fn range_test() {
    assert!(in_range(5, 5, 6));
    assert!(!in_range(6, 5, 6));
    assert!(!in_range(4, 5, 6));
}

#[test]
fn planned_fault_is_recorded() {
    let l = layout();
    let mut f = frame(2, 0x8040_0008, 0, 0);
    let before = f;
    let mut slot = OutcomeSlot::new();
    let r = handle_user_trap(&mut f, FRAME_ADDR, l.trap_entry, l, &mut slot);
    assert_eq!(r, Ok((ACTION_TERMINATE_PROCESS, None)));
    assert_eq!(f.sepc, before.sepc);
    assert_eq!(slot.kind, OutcomeKind::Fault);
    assert_eq!(
        take_fault(&mut slot),
        Ok(FaultInfo { cause: 2, sepc: 0x8040_0008, stval: 0x1234 })
    );
}

#[test]
fn putchar_resumes_user() {
    let l = layout();
    let mut f = frame(8, 0x8041_0004, 1, b'!' as usize);
    f.sstatus = 0x22;
    let mut slot = OutcomeSlot::new();
    let r = handle_user_trap(&mut f, FRAME_ADDR, l.trap_entry, l, &mut slot);
    assert_eq!(r, Ok((ACTION_RESUME_USER, Some(b'!'))));
    assert_eq!(f.x[10], 0);
    assert_eq!(f.sepc, 0x8041_0008);
    assert_eq!(f.sstatus, 0);
    assert_eq!(slot, OutcomeSlot::new());
}

#[test]
fn exit_terminates_and_records_code() {
    let l = layout();
    let mut f = frame(8, 0x8041_0014, 2, 0);
    let mut slot = OutcomeSlot::new();
    let r = handle_user_trap(&mut f, FRAME_ADDR, l.trap_entry, l, &mut slot);
    assert_eq!(r, Ok((ACTION_TERMINATE_PROCESS, None)));
    assert_eq!(f.sepc, 0x8041_0014);
    assert_eq!(slot.kind, OutcomeKind::Exit);
    assert_eq!(take_exit(&mut slot), Ok(0));
}

#[test]
fn invalid_exit_code_resumes_with_error() {
    let l = layout();
    let mut f = frame(8, 0x8041_0014, 2, 300);
    let mut slot = OutcomeSlot::new();
    let r = handle_user_trap(&mut f, FRAME_ADDR, l.trap_entry, l, &mut slot);
    assert_eq!(r, Ok((ACTION_RESUME_USER, None)));
    assert_eq!(f.x[10] as isize, -2);
}

#[test]
fn refused_user_traps() {
    let l = layout();
    let mut slot = OutcomeSlot::new();
    let mut f = frame(2, 0x8040_000c, 0, 0);
    assert_eq!(
        handle_user_trap(&mut f, FRAME_ADDR, l.trap_entry, l, &mut slot),
        Err(UserTrapError::UnexpectedException(2))
    );
    let mut f = frame(8, 0x8041_0008, 1, 65);
    assert_eq!(
        handle_user_trap(&mut f, FRAME_ADDR, l.trap_entry, l, &mut slot),
        Err(UserTrapError::EcallOutsideApi(0x8041_0008))
    );
    let mut f = frame(8, 0x8041_0004, 1, 65);
    assert_eq!(
        handle_user_trap(&mut f, FRAME_ADDR, 0, l, &mut slot),
        Err(UserTrapError::Boundary(BoundaryError::StvecNotRestored))
    );
    let mut near_top = l;
    near_top.api = Region::new(usize::MAX - 8, usize::MAX);
    near_top.putchar_ecall = usize::MAX - 2;
    let mut f = frame(8, usize::MAX - 2, 1, 65);
    assert_eq!(
        handle_user_trap(&mut f, FRAME_ADDR, l.trap_entry, near_top, &mut slot),
        Err(UserTrapError::PcOverflow)
    );
    assert_eq!(f.x[10], 65);
    assert_eq!(slot, OutcomeSlot::new());
}

fn program() -> Program {
    Program::from_linked("fault-demo", 0x8040_0000, 0x8040_0000, 0x8040_0010).unwrap()
}

#[test]
fn prepare_process_checks() {
    let program = program();
    let p = prepare_process(7, &program, stacks(), 0, 0x122).unwrap();
    assert_eq!(p.state(), ProcessState::Running);
    assert_eq!(p.user_runtime().unwrap().context.sstatus, 0);
    assert!(matches!(prepare_process(7, &program, stacks(), 2, 0), Err(SetupError::InterruptsEnabled)));
    let mut s = stacks();
    s.user = Region::new(0x8031_0004, 0x8031_0004 + STACK_BYTES);
    assert!(matches!(prepare_process(7, &program, s, 0, 0), Err(SetupError::UserSpInvalid)));
}

#[test]
fn fault_run_concluded() {
    let program = program();
    let l = layout();
    let mut p = prepare_process(1, &program, stacks(), 0, 0).unwrap();
    let mut slot = OutcomeSlot::new();
    let mut f = frame(2, 0x8040_0008, 0, 0);
    let (action, _) = handle_user_trap(&mut f, FRAME_ADDR, l.trap_entry, l, &mut slot).unwrap();
    let info = conclude_fault_run(&mut p, action, true, &mut slot, 0x8040_0008).unwrap();
    assert_eq!(info, FaultInfo { cause: 2, sepc: 0x8040_0008, stval: 0x1234 });
    assert_eq!(p.state(), ProcessState::Faulted(info));
}

#[test]
fn fault_run_errors() {
    let program = program();
    let mut p = Process::new(1, &program);
    let mut slot = OutcomeSlot::new();
    assert_eq!(
        conclude_fault_run(&mut p, ACTION_RESUME_USER, true, &mut slot, 0),
        Err(RunError::ContextNotRestored)
    );
    assert_eq!(
        conclude_fault_run(&mut p, ACTION_TERMINATE_PROCESS, false, &mut slot, 0),
        Err(RunError::ContextNotRestored)
    );
    assert_eq!(
        conclude_fault_run(&mut p, ACTION_TERMINATE_PROCESS, true, &mut slot, 0),
        Err(RunError::Outcome(OutcomeError::NotFault))
    );
    slot.kind = OutcomeKind::Fault;
    slot.fault_cause = 2;
    slot.fault_sepc = 4;
    let info = FaultInfo { cause: 2, sepc: 4, stval: 0 };
    assert_eq!(
        conclude_fault_run(&mut p, ACTION_TERMINATE_PROCESS, true, &mut slot, 8),
        Err(RunError::WrongFault(info))
    );
    slot.kind = OutcomeKind::Fault;
    assert_eq!(
        conclude_fault_run(&mut p, ACTION_TERMINATE_PROCESS, true, &mut slot, 4),
        Err(RunError::Transition)
    );
}

#[test]
fn exit_run_concluded() {
    let program = program();
    let mut p = prepare_process(2, &program, stacks(), 0, 0).unwrap();
    let mut slot = OutcomeSlot::new();
    slot.kind = OutcomeKind::Exit;
    slot.exit_code = 0;
    assert_eq!(conclude_exit_run(&mut p, ACTION_TERMINATE_PROCESS, true, &mut slot), Ok(0));
    assert_eq!(p.state(), ProcessState::Exited(0));
    let mut slot = OutcomeSlot::new();
    assert_eq!(
        conclude_exit_run(&mut p, ACTION_TERMINATE_PROCESS, true, &mut slot),
        Err(RunError::Outcome(OutcomeError::NotExit))
    );
}

#[test]
fn live_stack_is_not_cleared() {
    let s = stacks();
    assert!(may_clear_stacks(s, 0x8021_0000));
    assert!(!may_clear_stacks(s, 0x8030_0000));
    assert!(!may_clear_stacks(s, 0x8030_7fff));
    assert!(may_clear_stacks(s, 0x8030_8000));
}
