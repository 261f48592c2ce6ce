use neonos::batch::{
    Batch, Event, EventError, FinishError, TaskImage, BOOST_PERIOD, TRACE_CAPACITY,
};
use neonos::scheduler::{Policy, Reason, Spec, State, N};
use neonos::timer::T;
use neonos::trap::TrapFrame;

fn image() -> TaskImage {
    TaskImage {
        sstatus: 0x6000,
        entry: 0x8020_0000,
        fault_entry: 0x8020_0100,
        stack_tops: [0x8100_4000, 0x8100_8000, 0x8100_c000, 0x8101_0000],
        timer_done: 0x8200_0000,
    }
}

fn event(b: &Batch, reason: Reason, time: usize) -> Event {
    let i = b.current.unwrap();
    let mut frame = b.tasks[i].frame;
    frame.x[10] = 1234;
    Event { frame, reason, time }
}

#[test]
fn new_batch_admits_tasks_in_order() {
    let specs = [Spec::new(1, 5), Spec { mode: 1, iterations: 0, fault: true }];
    let b = Batch::new(Policy::Rr, &specs, 1000, &image());
    assert_eq!(b.count, 2);
    assert_eq!(b.ready.len(), 2);
    assert_eq!(b.ready.get(0), 0);
    assert_eq!(b.ready.get(1), 1);
    assert_eq!(b.boost, 1000 + BOOST_PERIOD);
    let t0 = b.tasks[0];
    assert_eq!(t0.state, State::Ready);
    assert_eq!(t0.ready_since, 1000);
    assert_eq!(t0.frame.sepc, 0x8020_0000);
    assert_eq!(t0.frame.x[2], 0x8100_4000 - 16);
    assert_eq!(t0.frame.x[8], b'A' as usize);
    assert_eq!(t0.frame.x[9], 5);
    assert_eq!(t0.frame.x[20], 1);
    assert_eq!(t0.frame.x[21], 0x8200_0000);
    assert_eq!(t0.frame.sstatus, 0x6000);
    let t1 = b.tasks[1];
    assert_eq!(t1.frame.sepc, 0x8020_0100);
    assert_eq!(t1.frame.x[8], b'B' as usize);
    assert_eq!(b.tasks[2].state, State::Done);
    assert_eq!(b.tasks[3].state, State::Done);
    assert!(b.check());
}

#[test]
fn select_runs_head_and_records_wait() {
    let specs = [Spec::new(1, 5), Spec::new(1, 5)];
    let mut b = Batch::new(Policy::Rr, &specs, 100, &image());
    assert_eq!(b.select(150), Some(0));
    assert_eq!(b.tasks[0].state, State::Running);
    assert_eq!(b.tasks[0].max_wait, 50);
    assert_eq!(b.tasks[0].first, Some(150));
    assert_eq!(b.deadline, 150 + T);
    assert_eq!(b.switches, 1);
    // a task is already on the CPU: nothing changes
    assert_eq!(b.select(999), Some(0));
    assert_eq!(b.switches, 1);
    assert!(b.check());
}

#[test]
fn yield_policy_round_trip() {
    let specs = [Spec::new(0, 3), Spec::new(0, 3)];
    let mut b = Batch::new(Policy::Yield, &specs, 0, &image());
    assert_eq!(b.select(10), Some(0));
    assert_eq!(b.arm_deadline(10), None);
    let e = event(&b, Reason::Yield, 20);
    assert_eq!(b.complete(e, 10, 21), Ok(false));
    assert_eq!(b.current, None);
    assert_eq!(b.tasks[0].state, State::Ready);
    assert_eq!(b.tasks[0].yields, 1);
    assert_eq!(b.tasks[0].preemptions, 0);
    assert_eq!(b.tasks[0].ready_since, 21);
    assert_eq!(b.tasks[0].frame.x[10], 1234);
    assert_eq!(b.ready.get(0), 1);
    assert_eq!(b.ready.get(1), 0);
    assert_eq!(b.trace_len, 1);
    assert_eq!(b.trace[0], (0, Reason::Yield));
    assert_eq!(b.select(30), Some(1));
    let e = event(&b, Reason::Exit(0), 40);
    assert_eq!(b.complete(e, 30, 41), Ok(false));
    assert_eq!(b.tasks[1].state, State::Done);
    assert_eq!(b.tasks[1].completion, 40);
    assert_eq!(b.select(50), Some(0));
    let e = event(&b, Reason::Exit(0), 60);
    assert_eq!(b.complete(e, 50, 61), Ok(false));
    assert_eq!(b.select(70), None);
    assert_eq!(b.check_finished(), Ok(()));
    assert_eq!(b.response_times(0), Some((10, 60)));
    assert_eq!(b.response_times(1), Some((30, 40)));
    assert!(b.check());
}

#[test]
fn served_syscall_keeps_task_and_is_not_traced() {
    let specs = [Spec::new(3, 1)];
    let mut b = Batch::new(Policy::Rr, &specs, 0, &image());
    b.select(0);
    assert_eq!(b.arm_deadline(0), Some(T));
    let e = event(&b, Reason::Syscall, 5);
    assert_eq!(b.complete(e, 0, 6), Ok(false));
    assert_eq!(b.current, Some(0));
    assert_eq!(b.tasks[0].syscalls, 1);
    assert_eq!(b.trace_len, 0);
    assert_eq!(b.ready.len(), 0);
    // the deadline has passed: a syscall now preempts the task
    let e = event(&b, Reason::Syscall, T + 1);
    assert_eq!(b.complete(e, 6, T + 2), Ok(false));
    assert_eq!(b.current, None);
    assert_eq!(b.tasks[0].preemptions, 1);
    assert_eq!(b.trace_len, 1);
    assert_eq!(b.trace[0], (0, Reason::Syscall));
}

#[test]
fn round_robin_timer_requeues_and_counts_preemption() {
    let specs = [Spec::new(1, 2_000_000), Spec::new(1, 2_000_000)];
    let mut b = Batch::new(Policy::Rr, &specs, 0, &image());
    b.select(0);
    let e = event(&b, Reason::Timer, T);
    assert_eq!(b.complete(e, 0, T + 1), Ok(false));
    assert_eq!(b.tasks[0].timers, 1);
    assert_eq!(b.tasks[0].preemptions, 1);
    assert_eq!(b.tasks[0].state, State::Ready);
    assert_eq!(b.select(T + 2), Some(1));
    assert!(b.check());
}

#[test]
fn one_shot_timer_policy_stops_at_limit() {
    let specs = [Spec::new(4, 0)];
    let mut b = Batch::new(Policy::Timer(2), &specs, 0, &image());
    b.select(0);
    assert_eq!(b.arm_deadline(0), Some(T));
    let e = event(&b, Reason::Timer, T);
    assert_eq!(b.complete(e, 0, T + 5), Ok(false));
    assert_eq!(b.current, Some(0));
    assert_eq!(b.deadline, 2 * T + 5);
    assert_eq!(b.arm_deadline(T + 6), Some(2 * T + 5));
    let e = event(&b, Reason::Timer, 2 * T + 5);
    assert_eq!(b.complete(e, T + 6, 2 * T + 6), Ok(true));
    assert_eq!(b.deadline, 2 * T + 5);
    assert_eq!(b.tasks[0].timers, 2);
    assert_eq!(b.arm_deadline(2 * T + 7), None);
    let e = event(&b, Reason::Exit(0), 3 * T);
    assert_eq!(b.complete(e, 2 * T + 7, 3 * T), Ok(false));
    assert_eq!(b.check_finished(), Ok(()));
}

#[test]
fn mlfq_demotes_after_allotment() {
    let specs = [Spec::new(2, 5000), Spec::new(1, 2_000_000)];
    let mut b = Batch::new(Policy::Mlfq, &specs, 0, &image());
    assert_eq!(b.select(0), Some(0));
    // window: slice T, allotment 2T, boost far away
    assert_eq!(b.arm_deadline(0), Some(T));
    let e = event(&b, Reason::Yield, T / 2);
    assert_eq!(b.complete(e, 0, T / 2), Ok(false));
    assert_eq!(b.tasks[0].slice, T / 2);
    assert_eq!(b.tasks[0].allot, 2 * T - T / 2);
    assert_eq!(b.tasks[0].level, 0);
    assert_eq!(b.select(T / 2), Some(1));
    let e = event(&b, Reason::Timer, T / 2 + T);
    assert_eq!(b.complete(e, T / 2, T / 2 + T), Ok(false));
    assert_eq!(b.tasks[1].slice, T);
    // task 0 at level 0 runs before task 1
    assert_eq!(b.select(2 * T), Some(0));
    let e = event(&b, Reason::Yield, 2 * T + 2 * T);
    assert_eq!(b.complete(e, 2 * T, 4 * T), Ok(false));
    assert_eq!(b.tasks[0].level, 1);
    assert_eq!(b.tasks[0].demotions, 1);
    assert_eq!(b.tasks[0].slice, 2 * T);
    assert_eq!(b.tasks[0].allot, 4 * T);
    assert!(b.check());
}

#[test]
fn mlfq_window_is_at_least_one_tick() {
    let specs = [Spec::new(1, 1)];
    let mut b = Batch::new(Policy::Mlfq, &specs, 0, &image());
    b.select(0);
    // past the boost deadline the window would be zero; it is one tick
    assert_eq!(b.arm_deadline(BOOST_PERIOD + 7), Some(BOOST_PERIOD + 8));
}

#[test]
fn mlfq_boost_resets_levels() {
    let specs = [Spec::new(1, 1), Spec::new(1, 1)];
    let mut b = Batch::new(Policy::Mlfq, &specs, 100, &image());
    b.tasks[0].level = 2;
    b.tasks[0].slice = 7;
    b.boost_if_due(100 + BOOST_PERIOD - 1);
    assert_eq!(b.boosts, 0);
    assert_eq!(b.tasks[0].level, 2);
    b.boost_if_due(100 + 2 * BOOST_PERIOD + 3);
    assert_eq!(b.boosts, 1);
    assert_eq!(b.tasks[0].level, 0);
    assert_eq!(b.tasks[0].slice, T);
    assert_eq!(b.tasks[0].allot, 2 * T);
    assert_eq!(b.boost, 100 + 3 * BOOST_PERIOD);
}

#[test]
fn boost_ignored_outside_mlfq() {
    let specs = [Spec::new(1, 1)];
    let mut b = Batch::new(Policy::Rr, &specs, 0, &image());
    b.boost_if_due(10 * BOOST_PERIOD);
    assert_eq!(b.boosts, 0);
    assert_eq!(b.boost, BOOST_PERIOD);
}

#[test]
fn erroneous_events_are_refused() {
    let specs = [Spec::new(1, 1), Spec::new(1, 1)];
    let mut b = Batch::new(Policy::Mlfq, &specs, 0, &image());
    b.select(0);
    let e = event(&b, Reason::Timer, 5);
    assert_eq!(b.complete(e, 6, 7), Err(EventError::TimeWentBackwards));
    let e = event(&b, Reason::Exit(3), 8);
    assert_eq!(b.complete(e, 6, 9), Err(EventError::ExitFailure(3)));
    let e = event(&b, Reason::Fault(2), 8);
    assert_eq!(b.complete(e, 6, 9), Err(EventError::UnexpectedFault(2)));
    assert_eq!(b.current, Some(0));
    assert_eq!(b.tasks[0].state, State::Running);
}

#[test]
fn planned_fault_finishes_task() {
    let specs = [Spec { mode: 1, iterations: 0, fault: true }, Spec::new(1, 1)];
    let mut b = Batch::new(Policy::Yield, &specs, 0, &image());
    b.select(0);
    let e = event(&b, Reason::Fault(5), 1);
    assert_eq!(b.complete(e, 0, 2), Err(EventError::UnexpectedFault(5)));
    let e = event(&b, Reason::Fault(2), 1);
    assert_eq!(b.complete(e, 0, 2), Ok(false));
    assert_eq!(b.tasks[0].state, State::Done);
    assert_eq!(b.trace[0], (0, Reason::Fault(2)));
}

#[test]
fn trace_overflow_counts_dropped() {
    let specs = [Spec::new(0, 1)];
    let mut b = Batch::new(Policy::Yield, &specs, 0, &image());
    for k in 0..(TRACE_CAPACITY + 3) {
        assert_eq!(b.select(k), Some(0));
        let e = event(&b, Reason::Yield, k);
        assert_eq!(b.complete(e, k, k), Ok(false));
    }
    assert_eq!(b.trace_len, TRACE_CAPACITY);
    assert_eq!(b.dropped, 3);
    assert_eq!(b.switches, TRACE_CAPACITY + 3);
}

#[test]
fn finish_checks_report_first_failure() {
    let specs = [Spec::new(1, 1_000_000), Spec::new(2, 1)];
    let mut b = Batch::new(Policy::Mlfq, &specs, 0, &image());
    assert_eq!(b.check_finished(), Err(FinishError::Unfinished(0)));
    for _ in 0..2 {
        b.select(0);
        let e = event(&b, Reason::Exit(0), 1);
        assert_eq!(b.complete(e, 0, 1), Ok(false));
    }
    assert_eq!(b.check_finished(), Err(FinishError::NeverPreempted(0)));
    b.tasks[0].timers = 1;
    assert_eq!(b.check_finished(), Err(FinishError::NoDemotion(1)));
    b.tasks[1].demotions = 1;
    assert_eq!(b.check_finished(), Ok(()));
}

#[test]
fn finish_checks_timer_count() {
    let specs = [Spec::new(4, 0)];
    let mut b = Batch::new(Policy::Timer(10), &specs, 0, &image());
    b.select(0);
    let e = event(&b, Reason::Exit(0), 1);
    b.complete(e, 0, 1).unwrap();
    assert_eq!(b.check_finished(), Err(FinishError::TimerCount(0)));
}

#[test]
fn overflow_guards() {
    let specs = [Spec::new(0, 1)];
    let mut b = Batch::new(Policy::Yield, &specs, 0, &image());
    assert!(b.can_boost(usize::MAX));
    assert!(b.can_select(usize::MAX - T));
    assert!(!b.can_select(usize::MAX - T + 1));
    b.select(0);
    // a task is running: selecting does nothing and cannot overflow
    assert!(b.can_select(usize::MAX));
    assert!(b.can_arm(usize::MAX));
    let e = event(&b, Reason::Yield, 1);
    assert!(b.can_complete(&e, usize::MAX));
    b.tasks[0].yields = usize::MAX;
    assert!(!b.can_complete(&e, 1));
}

#[test]
fn mlfq_overflow_guards() {
    let specs = [Spec::new(1, 1)];
    let mut b = Batch::new(Policy::Mlfq, &specs, usize::MAX - BOOST_PERIOD, &image());
    assert!(b.can_boost(usize::MAX - 1));
    assert!(!b.can_boost(usize::MAX));
    b.select(0);
    assert!(b.can_arm(usize::MAX - 1));
    assert!(!b.can_arm(usize::MAX));
    let timer = Batch::new(Policy::Timer(3), &specs, 0, &image());
    let mut timer = timer;
    timer.select(0);
    let e = event(&timer, Reason::Timer, 1);
    assert!(!timer.can_complete(&e, usize::MAX - 1));
    assert!(timer.can_complete(&e, usize::MAX - T));
}

#[test]
fn response_times_need_a_start() {
    let specs = [Spec::new(0, 1)];
    let b = Batch::new(Policy::Yield, &specs, 0, &image());
    assert_eq!(b.response_times(0), None);
}

#[test]
fn frame_of_event_is_saved() {
    let specs = [Spec::new(0, 1)];
    let mut b = Batch::new(Policy::Yield, &specs, 0, &image());
    b.select(0);
    let mut frame = TrapFrame::zero();
    frame.sepc = 42;
    b.complete(Event { frame, reason: Reason::Yield, time: 3 }, 0, 4).unwrap();
    assert_eq!(b.tasks[0].frame.sepc, 42);
}
