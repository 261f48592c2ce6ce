//! Tasks, the ready queue (FIFO or MLFQ order) and its consistency check,
//! and the classification of a scheduled task's trap.

use vstd::prelude::*;

use crate::syscall::{dispatch, syscall_outcome, syscall_output, SyscallOutcome};
use crate::timer::T;
use crate::trap::{
    TrapFrame, decode_scause, trusted_user_sstatus, is_interrupt, cause_code, user_sstatus,
    SSTATUS_SPP,
};

verus! {

/// Number of task slots.
pub const N: usize = 4;

/// Lifecycle of a task slot.
#[derive(Clone, Copy, PartialEq, Eq, Structural, Debug)]
pub enum State {
    Ready,
    Running,
    Done,
}

/// One schedulable task: its saved user frame, state and accounting.
#[derive(Clone, Copy)]
pub struct Task {
    pub frame: TrapFrame,
    pub state: State,
    pub level: usize,
    pub slice: usize,
    pub allot: usize,
    pub timers: usize,
    pub yields: usize,
    pub syscalls: usize,
    pub demotions: usize,
    pub preemptions: usize,
    pub first: Option<usize>,
    pub completion: usize,
    pub ready_since: usize,
    pub max_wait: usize,
}

/// Why a task left the CPU.
#[derive(Clone, Copy, PartialEq, Eq, Structural, Debug)]
pub enum Reason {
    /// An ordinary system call that was served.
    Syscall,
    /// The task gave up the CPU.
    Yield,
    /// The supervisor timer interrupted the task.
    Timer,
    /// The task exited with the given code.
    Exit(usize),
    /// The task took the exception with the given cause.
    Fault(usize),
}

/// Scheduling policy of one batch.
#[derive(Clone, Copy, PartialEq, Eq, Structural, Debug)]
pub enum Policy {
    /// Cooperative: tasks run until they yield, exit or fault.
    Yield,
    /// One-shot timer interrupts, at most the given number per task.
    Timer(usize),
    /// Round robin with one quantum per turn.
    Rr,
    /// Multi-level feedback queue with three levels and periodic boosts.
    Mlfq,
}

/// The workload of one task: user mode, iteration count and whether it
/// starts at the faulting entry.
#[derive(Clone, Copy, PartialEq, Eq, Structural, Debug)]
pub struct Spec {
    pub mode: usize,
    pub iterations: usize,
    pub fault: bool,
}

impl Spec {
    /// A non-faulting workload.
    pub fn new(mode: usize, iterations: usize) -> (s: Spec)
        ensures
            s == (Spec { mode, iterations, fault: false }),
    {
        Spec { mode, iterations, fault: false }
    }
}

/// `a7` value with which a task yields the CPU.
pub const SYSCALL_YIELD: usize = 3;

/// Cause code of the supervisor timer interrupt.
pub const CAUSE_TIMER: usize = 5;
/// Cause code of an environment call from user mode.
pub const CAUSE_USER_ECALL: usize = 8;
/// Cause code of an illegal instruction.
pub const CAUSE_ILLEGAL_INSTRUCTION: usize = 2;

/// A task trap that breaks the kernel's assumptions.
#[derive(Clone, Copy, PartialEq, Eq, Structural, Debug)]
pub enum HandleError {
    /// The frame is not on the trap stack of the task that was entered.
    WrongTrapStack,
    /// The trap came from supervisor mode.
    KernelFault,
    /// The task's PC is outside the task code.
    PcEscaped,
    /// An interrupt other than the supervisor timer.
    UnexpectedInterrupt,
    /// An exception other than a user `ecall` or an illegal instruction.
    UnexpectedException,
    /// Stepping over the `ecall` would overflow the PC.
    PcOverflow,
}

/// Whether the trap came from supervisor mode (`SPP` set).
pub open spec fn from_supervisor(sstatus: usize) -> bool {
    sstatus & SSTATUS_SPP != 0
}

/// Whether the trap is an `ecall` that the kernel answers and steps over
/// (a yield, or a system call that returns to the task).
pub open spec fn steps_over(frame: TrapFrame) -> bool {
    &&& !is_interrupt(frame.scause)
    &&& frame.scause == CAUSE_USER_ECALL
    &&& (frame.x[17] == SYSCALL_YIELD || syscall_outcome(frame.x[17], frame.x[10]) is Return)
}

/// What is wrong with a task trap, if anything, checked in this order: the
/// frame is not where the task's trap stack was expected, the trap came
/// from supervisor mode, the PC left the task code, an interrupt other than
/// the timer, an exception other than an `ecall` or an illegal instruction,
/// and an `ecall` at the top of the address space.
pub open spec fn task_trap_error(
    frame: TrapFrame,
    frame_addr: usize,
    expected: usize,
    code_start: usize,
    code_end: usize,
) -> Option<HandleError> {
    if frame_addr != expected {
        Some(HandleError::WrongTrapStack)
    } else if from_supervisor(frame.sstatus) {
        Some(HandleError::KernelFault)
    } else if !(code_start <= frame.sepc < code_end) {
        Some(HandleError::PcEscaped)
    } else if is_interrupt(frame.scause) {
        if cause_code(frame.scause) != CAUSE_TIMER {
            Some(HandleError::UnexpectedInterrupt)
        } else {
            None
        }
    } else if frame.scause == CAUSE_USER_ECALL {
        if steps_over(frame) && frame.sepc + 4 > usize::MAX {
            Some(HandleError::PcOverflow)
        } else {
            None
        }
    } else if frame.scause != CAUSE_ILLEGAL_INSTRUCTION {
        Some(HandleError::UnexpectedException)
    } else {
        None
    }
}

/// Why an accepted task trap happened.
pub open spec fn task_trap_reason(frame: TrapFrame) -> Reason {
    if is_interrupt(frame.scause) {
        Reason::Timer
    } else if frame.scause == CAUSE_USER_ECALL {
        if frame.x[17] == SYSCALL_YIELD {
            Reason::Yield
        } else {
            match syscall_outcome(frame.x[17], frame.x[10]) {
                SyscallOutcome::Return(_) => Reason::Syscall,
                SyscallOutcome::Exit(code) => Reason::Exit(code as usize),
            }
        }
    } else {
        Reason::Fault(frame.scause)
    }
}

/// The `a0` that an accepted `ecall` leaves: zero for a yield, the system
/// call's result otherwise.
pub open spec fn ecall_result(frame: TrapFrame) -> usize {
    if frame.x[17] == SYSCALL_YIELD {
        0
    } else {
        match syscall_outcome(frame.x[17], frame.x[10]) {
            SyscallOutcome::Return(v) => v as usize,
            SyscallOutcome::Exit(_) => frame.x[10],
        }
    }
}

/// Classifies a trap of a scheduled task and prepares its frame for the
/// return to user mode. A yield (`a7` = 3) gets `a0` = 0 and a system call
/// that returns gets its result in `a0`; both step over the `ecall`. The
/// status is made a trusted user status. Returns the reason and the byte
/// that the system call prints, if any. A trap that breaks the kernel's
/// assumptions (see `task_trap_error`) is refused and the frame is left
/// unchanged.
pub fn handle(
    frame: &mut TrapFrame,
    frame_addr: usize,
    expected: usize,
    code_start: usize,
    code_end: usize,
) -> (r: Result<(Reason, Option<u8>), HandleError>)
    ensures
        r is Err <==> task_trap_error(*old(frame), frame_addr, expected, code_start, code_end) is Some,
        r matches Err(e) ==> task_trap_error(*old(frame), frame_addr, expected, code_start, code_end)
            == Some(e) && *final(frame) == *old(frame),
        r matches Ok(v) ==> {
            &&& v.0 == task_trap_reason(*old(frame))
            &&& v.1 == if !is_interrupt(old(frame).scause) && old(frame).scause == CAUSE_USER_ECALL
                && old(frame).x[17] != SYSCALL_YIELD {
                syscall_output(old(frame).x[17], old(frame).x[10])
            } else {
                None
            }
            &&& final(frame).sstatus == user_sstatus(old(frame).sstatus)
            &&& final(frame).scause == old(frame).scause
            &&& final(frame).stval == old(frame).stval
            &&& if steps_over(*old(frame)) {
                &&& final(frame).sepc == old(frame).sepc + 4
                &&& final(frame).x@ == old(frame).x@.update(10, ecall_result(*old(frame)))
            } else {
                &&& final(frame).sepc == old(frame).sepc
                &&& final(frame).x@ == old(frame).x@
            }
        },
{
    if frame_addr != expected {
        return Err(HandleError::WrongTrapStack);
    }
    if frame.sstatus & SSTATUS_SPP != 0 {
        return Err(HandleError::KernelFault);
    }
    if !(code_start <= frame.sepc && frame.sepc < code_end) {
        return Err(HandleError::PcEscaped);
    }
    let (interrupt, code) = decode_scause(frame.scause);
    let mut output: Option<u8> = None;
    let reason = if interrupt {
        if code != CAUSE_TIMER {
            return Err(HandleError::UnexpectedInterrupt);
        }
        Reason::Timer
    } else if frame.scause == CAUSE_USER_ECALL {
        if frame.x[17] == SYSCALL_YIELD {
            if frame.sepc > usize::MAX - 4 {
                return Err(HandleError::PcOverflow);
            }
            frame.x[10] = 0;
            frame.sepc = frame.sepc + 4;
            Reason::Yield
        } else {
            let d = dispatch(frame.x[17], frame.x[10]);
            output = d.output;
            match d.outcome {
                SyscallOutcome::Return(value) => {
                    if frame.sepc > usize::MAX - 4 {
                        return Err(HandleError::PcOverflow);
                    }
                    frame.x[10] = value as usize;
                    frame.sepc = frame.sepc + 4;
                    Reason::Syscall
                },
                SyscallOutcome::Exit(code) => Reason::Exit(code as usize),
            }
        }
    } else {
        if frame.scause != CAUSE_ILLEGAL_INSTRUCTION {
            return Err(HandleError::UnexpectedException);
        }
        Reason::Fault(frame.scause)
    };
    frame.sstatus = trusted_user_sstatus(frame.sstatus);
    Ok((reason, output))
}

/// Time slice (in ticks) of an MLFQ level: one, two and four quanta.
pub open spec fn slice_for(level: int) -> usize {
    if level == 0 {
        T
    } else if level == 1 {
        (2 * T) as usize
    } else {
        (4 * T) as usize
    }
}

/// Total allotment (in ticks) of an MLFQ level before demotion; the lowest
/// level never demotes.
pub open spec fn allot_for(level: int) -> usize {
    if level == 0 {
        (2 * T) as usize
    } else if level == 1 {
        (4 * T) as usize
    } else {
        usize::MAX
    }
}

impl Task {
    /// Whether the slot is finished, zeroed, at the top level with the top
    /// level's budget.
    pub open spec fn is_idle(self) -> bool {
        &&& self.state == State::Done
        &&& self.level == 0
        &&& self.slice == slice_for(0)
        &&& self.allot == allot_for(0)
        &&& self.timers == 0 && self.yields == 0 && self.syscalls == 0
        &&& self.demotions == 0 && self.preemptions == 0
        &&& self.first is None
        &&& self.completion == 0 && self.ready_since == 0 && self.max_wait == 0
        &&& self.frame.is_zero()
    }

    /// A finished, zeroed slot at the top level with the top level's budget.
    pub fn idle() -> (t: Task)
        ensures
            t.is_idle(),
    {
        Task {
            frame: TrapFrame::zero(),
            state: State::Done,
            level: 0,
            slice: T,
            allot: 2 * T,
            timers: 0,
            yields: 0,
            syscalls: 0,
            demotions: 0,
            preemptions: 0,
            first: None,
            completion: 0,
            ready_since: 0,
            max_wait: 0,
        }
    }

    /// Resets the slice and allotment to those of the task's level.
    pub fn budget(&mut self)
        requires
            old(self).level <= 2,
        ensures
            *final(self) == (Task {
                slice: slice_for(old(self).level as int),
                allot: allot_for(old(self).level as int),
                ..*old(self)
            }),
    {
        let slices: [usize; 3] = [T, 2 * T, 4 * T];
        let allots: [usize; 3] = [2 * T, 4 * T, usize::MAX];
        self.slice = slices[self.level];
        self.allot = allots[self.level];
    }
}

/// Number of occurrences of `v` in `s`.
pub open spec fn count_of(s: Seq<usize>, v: usize) -> nat
    decreases s.len(),
{
    if s.len() == 0 {
        0
    } else {
        count_of(s.drop_last(), v) + if s.last() == v {
            1nat
        } else {
            0nat
        }
    }
}

/// Number of tasks among the first `n` that are running.
pub open spec fn running_count(tasks: Seq<Task>, n: int) -> nat
    decreases n,
{
    if n <= 0 {
        0
    } else {
        running_count(tasks, n - 1) + if tasks[n - 1].state == State::Running {
            1nat
        } else {
            0nat
        }
    }
}

/// The consistency that the ready queue `q` must have with the first
/// `count` tasks: no more entries than tasks, only ready tasks queued, each
/// task queued once if it is ready and never otherwise, and at most one
/// task running.
pub open spec fn queue_consistent(q: Seq<usize>, tasks: Seq<Task>, count: int) -> bool {
    &&& q.len() <= count
    &&& forall|j: int| 0 <= j < q.len() ==> tasks[q[j] as int].state == State::Ready
    &&& forall|id: int|
        0 <= id < count ==> count_of(q, id as usize) == if tasks[id].state == State::Ready {
            1nat
        } else {
            0nat
        }
    &&& running_count(tasks, count) <= 1
}

/// Whether position `p` of `q` holds the first task of minimal level.
pub open spec fn is_first_min(q: Seq<usize>, tasks: Seq<Task>, p: int) -> bool {
    &&& 0 <= p < q.len()
    &&& forall|j: int| 0 <= j < q.len() ==> tasks[q[p] as int].level <= tasks[q[j] as int].level
    &&& forall|j: int| 0 <= j < p ==> tasks[q[j] as int].level > tasks[q[p] as int].level
}

/// The position that `pop` takes: the head in FIFO order, or the first entry
/// of minimal level under MLFQ.
pub open spec fn pick_pos(q: Seq<usize>, tasks: Seq<Task>, mlfq: bool) -> int {
    if mlfq {
        choose|p: int| is_first_min(q, tasks, p)
    } else {
        0
    }
}

/// At most one position is the first of minimal level.
pub proof fn lemma_first_min_unique(q: Seq<usize>, tasks: Seq<Task>, p1: int, p2: int)
    requires
        is_first_min(q, tasks, p1),
        is_first_min(q, tasks, p2),
    ensures
        p1 == p2,
{
    if p1 < p2 {
        assert(tasks[q[p1] as int].level > tasks[q[p2] as int].level);
    } else if p2 < p1 {
        assert(tasks[q[p2] as int].level > tasks[q[p1] as int].level);
    }
}

/// A non-empty queue has a first entry of minimal level.
pub proof fn lemma_first_min_exists(q: Seq<usize>, tasks: Seq<Task>) -> (p: int)
    requires
        q.len() > 0,
    ensures
        is_first_min(q, tasks, p),
        p == pick_pos(q, tasks, true),
    decreases q.len(),
{
    if q.len() == 1 {
        assert(is_first_min(q, tasks, 0));
        lemma_first_min_unique(q, tasks, 0, pick_pos(q, tasks, true));
        0
    } else {
        let r = q.drop_last();
        let p0 = lemma_first_min_exists(r, tasks);
        let last = q.len() - 1;
        let p = if tasks[q[last] as int].level < tasks[q[p0] as int].level {
            last
        } else {
            p0
        };
        assert forall|j: int| 0 <= j < q.len() implies tasks[q[p] as int].level <= tasks[q[
            j
        ] as int].level by {
            if j < last {
                assert(r[j] == q[j]);
            }
        }
        assert forall|j: int| 0 <= j < p implies tasks[q[j] as int].level > tasks[q[
            p
        ] as int].level by {
            if j < last {
                assert(r[j] == q[j]);
            }
        }
        assert(is_first_min(q, tasks, p));
        lemma_first_min_unique(q, tasks, p, pick_pos(q, tasks, true));
        p
    }
}

/// FIFO order: appending an id does not change which id a non-MLFQ pop
/// takes, and taking the head then appending is the same as appending then
/// taking the head, so ids leave in the order they came.
pub proof fn lemma_fifo(q: Seq<usize>, tasks: Seq<Task>, x: usize)
    requires
        q.len() > 0,
    ensures
        pick_pos(q.push(x), tasks, false) == 0,
        q.push(x)[0] == q[0],
        q.push(x).remove(0) == q.remove(0).push(x),
{
    assert(q.push(x).remove(0) =~= q.remove(0).push(x));
}

/// A no-duplicate sequence of values below `n` has at most `n` entries.
pub proof fn lemma_len_below(q: Seq<usize>, n: usize)
    requires
        q.no_duplicates(),
        forall|j: int| 0 <= j < q.len() ==> q[j] < n,
    ensures
        q.len() <= n,
    decreases n,
{
    if n == 0 {
        if q.len() > 0 {
            assert(q[0] < n);
        }
    } else {
        let top = (n - 1) as usize;
        if q.contains(top) {
            let k = q.index_of(top);
            let r = q.remove(k);
            q.remove_ensures(k);
            assert forall|a: int, b: int| 0 <= a < b < r.len() implies r[a] != r[b] by {
                let qa = if a < k { a } else { a + 1 };
                let qb = if b < k { b } else { b + 1 };
                assert(r[a] == q[qa] && r[b] == q[qb]);
            }
            assert forall|j: int| 0 <= j < r.len() implies r[j] < top by {
                let qj = if j < k { j } else { j + 1 };
                assert(r[j] == q[qj]);
                assert(qj != k);
            }
            lemma_len_below(r, top);
        } else {
            assert forall|j: int| 0 <= j < q.len() implies q[j] < top by {
                if q[j] == top {
                    assert(q.contains(top));
                }
            }
            lemma_len_below(q, top);
        }
    }
}

/// A no-duplicate sequence of values below `n` that misses some `x < n` is
/// shorter than `n`.
pub proof fn lemma_len_below_missing(q: Seq<usize>, n: usize, x: usize)
    requires
        q.no_duplicates(),
        forall|j: int| 0 <= j < q.len() ==> q[j] < n,
        x < n,
        !q.contains(x),
    ensures
        q.len() < n,
{
    let r = q.push(x);
    assert forall|a: int, b: int| 0 <= a < b < r.len() implies r[a] != r[b] by {
        if b == q.len() {
            assert(q.contains(q[a]));
        } else {
            assert(r[a] == q[a] && r[b] == q[b]);
        }
    }
    assert forall|j: int| 0 <= j < r.len() implies r[j] < n by {
        if j < q.len() {
            assert(r[j] == q[j]);
        }
    }
    lemma_len_below(r, n);
}

/// FIFO queue of ready task ids with room for every slot.
pub struct Ready {
    ids: [usize; N],
    len: usize,
}

impl View for Ready {
    type V = Seq<usize>;

    closed spec fn view(&self) -> Seq<usize> {
        self.ids@.subrange(0, self.len as int)
    }
}

impl Ready {
    /// The queue holds at most `N` distinct slot ids.
    pub closed spec fn wf(&self) -> bool {
        &&& self.len <= N
        &&& forall|j: int| 0 <= j < self.len ==> self.ids[j] < N
        &&& self@.no_duplicates()
    }

    /// What `wf` gives a caller.
    pub proof fn lemma_wf(&self)
        requires
            self.wf(),
        ensures
            self@.len() <= N,
            forall|j: int| 0 <= j < self@.len() ==> self@[j] < N,
            self@.no_duplicates(),
    {
    }

    /// An empty queue.
    pub fn new() -> (r: Ready)
        ensures
            r.wf(),
            r@ == Seq::<usize>::empty(),
    {
        Ready { ids: [0usize; N], len: 0 }
    }

    /// Number of queued ids.
    pub fn len(&self) -> (n: usize)
        requires
            self.wf(),
        ensures
            n == self@.len(),
    {
        self.len
    }

    /// The queued id at position `pos`.
    pub fn get(&self, pos: usize) -> (id: usize)
        requires
            self.wf(),
            pos < self@.len(),
        ensures
            id == self@[pos as int],
    {
        self.ids[pos]
    }

    /// Whether `id` is queued.
    pub fn contains(&self, id: usize) -> (b: bool)
        requires
            self.wf(),
        ensures
            b == self@.contains(id),
    {
        let mut k: usize = 0;
        while k < self.len
            invariant
                self.wf(),
                k <= self.len,
                forall|j: int| 0 <= j < k ==> self@[j] != id,
            decreases self.len - k,
        {
            if self.ids[k] == id {
                assert(self@[k as int] == id);
                return true;
            }
            k += 1;
        }
        false
    }

    /// Appends `id`; refuses an id that is not a slot, a full queue, and an
    /// id that is already queued, in that order, leaving the queue unchanged.
    pub fn push(&mut self, id: usize) -> (r: Result<(), &'static str>)
        requires
            old(self).wf(),
        ensures
            final(self).wf(),
            id >= N ==> r == Err::<(), &'static str>("bad task id"),
            id < N && old(self)@.len() == N ==> r == Err::<(), &'static str>("queue full"),
            id < N && old(self)@.len() < N && old(self)@.contains(id) ==> r == Err::<
                (),
                &'static str,
            >("duplicate task"),
            r is Ok <==> id < N && old(self)@.len() < N && !old(self)@.contains(id),
            r is Ok ==> final(self)@ == old(self)@.push(id),
            r is Err ==> final(self)@ == old(self)@,
    {
        if id >= N {
            return Err("bad task id");
        }
        if self.len == N {
            return Err("queue full");
        }
        if self.contains(id) {
            return Err("duplicate task");
        }
        let ghost before = self@;
        let mut ids = self.ids;
        ids[self.len] = id;
        *self = Ready { ids, len: self.len + 1 };
        assert(self@ =~= before.push(id));
        Ok(())
    }

    /// Removes and returns the next id: the head, or under MLFQ the first
    /// queued task of minimal level; `None` when the queue is empty.
    pub fn pop(&mut self, tasks: &[Task; N], mlfq: bool) -> (r: Option<usize>)
        requires
            old(self).wf(),
        ensures
            final(self).wf(),
            old(self)@.len() == 0 ==> r is None && *final(self) == *old(self),
            old(self)@.len() > 0 ==> {
                let p = pick_pos(old(self)@, tasks@, mlfq);
                &&& 0 <= p < old(self)@.len()
                &&& r == Some(old(self)@[p])
                &&& final(self)@ == old(self)@.remove(p)
            },
    {
        if self.len == 0 {
            return None;
        }
        let ghost q = self@;
        let mut pos: usize = 0;
        if mlfq {
            let mut k: usize = 1;
            while k < self.len
                invariant
                    self.wf(),
                    q == self@,
                    q.len() > 0,
                    1 <= k <= self.len,
                    is_first_min(q.subrange(0, k as int), tasks@, pos as int),
                decreases self.len - k,
            {
                let ghost pre = q.subrange(0, k as int);
                let ghost ext = q.subrange(0, k as int + 1);
                assert forall|j: int| 0 <= j < k implies ext[j] == pre[j] by {}
                if tasks[self.ids[k]].level < tasks[self.ids[pos]].level {
                    pos = k;
                }
                assert(ext[k as int] == q[k as int]);
                assert(is_first_min(ext, tasks@, pos as int));
                k += 1;
            }
            assert(q.subrange(0, self.len as int) =~= q);
            proof {
                let p = lemma_first_min_exists(q, tasks@);
                lemma_first_min_unique(q, tasks@, pos as int, p);
            }
        }
        let id = self.ids[pos];
        let mut ids = self.ids;
        let last = self.len - 1;
        let mut k: usize = pos;
        while k < last
            invariant
                self.wf(),
                q == self@,
                pos <= k <= last,
                last + 1 == self.len,
                forall|j: int| 0 <= j < pos ==> ids[j] == q[j],
                forall|j: int| pos <= j < k ==> ids[j] == q[j + 1],
                forall|j: int| k < j <= last ==> ids[j] == q[j],
            decreases last - k,
        {
            ids[k] = ids[k + 1];
            k += 1;
        }
        assert forall|j: int| 0 <= j < last implies ids[j] < N by {
            if j < pos {
                assert(q[j] == self.ids[j]);
            } else {
                assert(q[j + 1] == self.ids[j + 1]);
            }
        }
        *self = Ready { ids, len: last };
        assert(self@ =~= q.remove(pos as int));
        proof {
            q.remove_ensures(pos as int);
            assert forall|a: int, b: int| 0 <= a < b < self@.len() implies self@[a] != self@[
                b
            ] by {
                let qa = if a < pos { a } else { a + 1 };
                let qb = if b < pos { b } else { b + 1 };
                assert(self@[a] == q[qa] && self@[b] == q[qb]);
            }
        }
        Some(id)
    }

    /// Whether the queue is consistent with the first `count` tasks (see
    /// `queue_consistent`).
    pub fn check(&self, tasks: &[Task; N], count: usize) -> (ok: bool)
        requires
            self.wf(),
            count <= N,
        ensures
            ok == queue_consistent(self@, tasks@, count as int),
    {
        let ghost q = self@;
        if self.len > count {
            return false;
        }
        let mut j: usize = 0;
        while j < self.len
            invariant
                self.wf(),
                q == self@,
                j <= self.len,
                forall|k: int| 0 <= k < j ==> tasks@[q[k] as int].state == State::Ready,
            decreases self.len - j,
        {
            if tasks[self.ids[j]].state != State::Ready {
                assert(q[j as int] == self.ids[j as int]);
                return false;
            }
            j += 1;
        }
        let mut id: usize = 0;
        while id < count
            invariant
                self.wf(),
                q == self@,
                count <= N,
                id <= count,
                q.len() <= count,
                forall|k: int| 0 <= k < q.len() ==> tasks@[q[k] as int].state == State::Ready,
                forall|v: int|
                    0 <= v < id ==> count_of(q, v as usize) == if tasks@[v].state == State::Ready {
                        1nat
                    } else {
                        0nat
                    },
            decreases count - id,
        {
            let mut c: usize = 0;
            let mut k: usize = 0;
            while k < self.len
                invariant
                    self.wf(),
                    q == self@,
                    k <= self.len,
                    c == count_of(q.subrange(0, k as int), id),
                    c <= k,
                decreases self.len - k,
            {
                let ghost pre = q.subrange(0, k as int);
                let ghost ext = q.subrange(0, k as int + 1);
                assert(ext.drop_last() =~= pre);
                if self.ids[k] == id {
                    c += 1;
                }
                k += 1;
            }
            assert(q.subrange(0, self.len as int) =~= q);
            let expected: usize = if tasks[id].state == State::Ready {
                1
            } else {
                0
            };
            if c != expected {
                return false;
            }
            id += 1;
        }
        let mut running: usize = 0;
        let mut k: usize = 0;
        while k < count
            invariant
                count <= N,
                k <= count,
                running == running_count(tasks@, k as int),
                running <= k,
            decreases count - k,
        {
            if tasks[k].state == State::Running {
                running += 1;
            }
            k += 1;
        }
        running <= 1
    }
}

/// In a sequence without duplicates a value occurs once if present and
/// never otherwise.
pub proof fn lemma_count_of_no_dup(s: Seq<usize>, v: usize)
    requires
        s.no_duplicates(),
    ensures
        count_of(s, v) == if s.contains(v) {
            1nat
        } else {
            0nat
        },
    decreases s.len(),
{
    if s.len() > 0 {
        let r = s.drop_last();
        assert forall|a: int, b: int| 0 <= a < b < r.len() implies r[a] != r[b] by {
            assert(r[a] == s[a] && r[b] == s[b]);
        }
        lemma_count_of_no_dup(r, v);
        if s.last() == v {
            assert(s[s.len() - 1] == v);
            if r.contains(v) {
                let j = choose|j: int| 0 <= j < r.len() && r[j] == v;
                assert(s[j] == v);
            }
        } else {
            if s.contains(v) {
                let j = choose|j: int| 0 <= j < s.len() && s[j] == v;
                assert(r[j] == v);
            }
            if r.contains(v) {
                let j = choose|j: int| 0 <= j < r.len() && r[j] == v;
                assert(s[j] == v);
            }
        }
    }
}

/// When every running task among the first `n` is `current`, at most that
/// one task runs.
pub proof fn lemma_running_count(tasks: Seq<Task>, n: int, current: Option<usize>)
    requires
        0 <= n <= N,
        forall|id: int| 0 <= id < n && tasks[id].state == State::Running ==> current == Some(
            id as usize,
        ),
    ensures
        running_count(tasks, n) <= if current matches Some(c) && c < n {
            1nat
        } else {
            0nat
        },
    decreases n,
{
    if n > 0 {
        lemma_running_count(tasks, n - 1, current);
    }
}

} // verus!
