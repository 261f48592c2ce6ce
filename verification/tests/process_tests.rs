use neonos::process::{
    run_model, state_name, FaultInfo, InvalidTransition, ModelEvent, PidAllocator, Process,
    ProcessState, Program, ProgramError,
};

fn hello() -> Program {
    Program::linked_hello(0x8020_0000, 0x8020_0000, 0x8020_0008).unwrap()
}

#[test]
fn linked_hello_describes_code() {
    let p = hello();
    assert_eq!(p.name(), "hello");
    assert_eq!(p.entry(), 0x8020_0000);
    assert_eq!(p.code_range().start, 0x8020_0000);
    assert_eq!(p.code_range().end, 0x8020_0008);
}

#[test]
fn program_rejects_bad_ranges() {
    assert!(matches!(Program::linked_hello(8, 8, 8), Err(ProgramError::InvalidCodeRange)));
    assert!(matches!(Program::linked_hello(9, 8, 8), Err(ProgramError::InvalidCodeRange)));
    assert!(matches!(Program::from_linked("p", 7, 8, 16), Err(ProgramError::EntryOutsideCode)));
    assert!(matches!(Program::from_linked("p", 16, 8, 16), Err(ProgramError::EntryOutsideCode)));
    assert!(Program::from_linked("p", 15, 8, 16).is_ok());
}

#[test]
fn process_lifecycle() {
    let program = hello();
    let mut p = Process::new(1, &program);
    assert_eq!(p.state(), ProcessState::Ready);
    assert_eq!(p.transition(ProcessState::Running), Ok(()));
    assert_eq!(p.transition(ProcessState::Exited(0)), Ok(()));
    assert_eq!(p.state(), ProcessState::Exited(0));
}

#[test]
fn invalid_transition_keeps_state() {
    let program = hello();
    let mut p = Process::new(1, &program);
    p.transition(ProcessState::Running).unwrap();
    p.transition(ProcessState::Exited(3)).unwrap();
    let r = p.transition(ProcessState::Running);
    assert_eq!(
        r,
        Err(InvalidTransition { from: ProcessState::Exited(3), to: ProcessState::Running })
    );
    assert_eq!(p.state(), ProcessState::Exited(3));
}

#[test]
fn ready_cannot_exit_directly() {
    let program = hello();
    let mut p = Process::new(4, &program);
    assert!(p.transition(ProcessState::Exited(0)).is_err());
    assert!(p.transition(ProcessState::Ready).is_err());
    assert_eq!(p.state(), ProcessState::Ready);
    assert_eq!(p.id(), 4);
}

#[test]
fn running_can_fault() {
    let program = hello();
    let mut p = Process::new(1, &program);
    let info = FaultInfo { cause: 2, sepc: 0x10, stval: 0 };
    assert!(p.finish_fault(info).is_err());
    assert_eq!(p.start(), Ok(()));
    assert_eq!(p.finish_fault(info), Ok(()));
    assert_eq!(p.state(), ProcessState::Faulted(info));
    assert!(p.finish_exit(0).is_err());
}

#[test]
fn finish_exit_records_code() {
    let program = hello();
    let mut p = Process::new(1, &program);
    p.start().unwrap();
    assert_eq!(p.finish_exit(255), Ok(()));
    assert_eq!(p.state(), ProcessState::Exited(255));
}

#[test]
fn two_processes_share_program() {
    let program = hello();
    let a = Process::new(1, &program);
    let b = Process::new(2, &program);
    assert!(std::ptr::eq(a.program(), b.program()));
    assert_ne!(a.id(), b.id());
}

#[test]
fn pid_allocator_counts_up_and_stops() {
    let mut pids = PidAllocator::new(1);
    assert_eq!(pids.allocate(), Some(1));
    assert_eq!(pids.allocate(), Some(2));
    let mut top = PidAllocator::new(u64::MAX - 1);
    assert_eq!(top.allocate(), Some(u64::MAX - 1));
    assert_eq!(top.allocate(), None);
    assert_eq!(top.allocate(), None);
}

#[test]
fn state_names() {
    assert_eq!(state_name(ProcessState::Ready), "Ready");
    assert_eq!(state_name(ProcessState::Running), "Running");
    assert_eq!(state_name(ProcessState::Exited(-1)), "Exited");
    assert_eq!(state_name(ProcessState::Faulted(FaultInfo { cause: 2, sepc: 0, stval: 0 })), "Faulted");
}

#[test]
fn model_log_from_pid_one() {
    let program = hello();
    let log = run_model(&program, 1).unwrap();
    assert_eq!(
        log,
        vec![
            ModelEvent::State(1, ProcessState::Ready),
            ModelEvent::State(1, ProcessState::Running),
            ModelEvent::State(1, ProcessState::Exited(0)),
            ModelEvent::Rejected {
                pid: 1,
                from: ProcessState::Exited(0),
                to: ProcessState::Running,
                kept: 0,
            },
            ModelEvent::State(2, ProcessState::Ready),
            ModelEvent::SharedProgram,
            ModelEvent::State(2, ProcessState::Running),
            ModelEvent::State(2, ProcessState::Exited(0)),
        ]
    );
}

#[test]
fn model_runs_out_of_pids() {
    let program = hello();
    assert!(run_model(&program, u64::MAX - 2).is_some());
    assert!(run_model(&program, u64::MAX - 1).is_none());
    assert!(run_model(&program, u64::MAX).is_none());
}
