//! One scheduling batch as a state machine: admitting tasks, boosting,
//! picking the next task, choosing its timer deadline, and taking the CPU
//! back after each event, with the ready-queue invariant kept throughout.

use vstd::prelude::*;

use crate::scheduler::{
    N, State, Task, Reason, Policy, Spec, Ready, slice_for, allot_for, queue_consistent,
    pick_pos, lemma_len_below, lemma_len_below_missing, lemma_count_of_no_dup,
    lemma_running_count, count_of,
};
use crate::timer::T;
use crate::trap::TrapFrame;

verus! {

/// Number of switch records a batch keeps; later records are only counted.
pub const TRACE_CAPACITY: usize = 64;

/// Interval (in ticks) between two MLFQ priority boosts.
pub const BOOST_PERIOD: usize = 20 * T;

/// Register value that tells a task which task it is: `'A'` plus its slot.
pub const TASK_TAG_BASE: usize = 65;

/// Where the user code and stacks of a batch live, as the kernel found them.
pub struct TaskImage {
    /// The trusted user `sstatus`.
    pub sstatus: usize,
    /// Entry of a normal task.
    pub entry: usize,
    /// Entry of a task that faults on purpose.
    pub fault_entry: usize,
    /// One past the top of each slot's user stack.
    pub stack_tops: [usize; N],
    /// Address of the flag that tells timer tasks that their ticks are over.
    pub timer_done: usize,
}

/// A task's return to the kernel: its saved frame, why, and when.
#[derive(Clone, Copy)]
pub struct Event {
    pub frame: TrapFrame,
    pub reason: Reason,
    pub time: usize,
}

/// An event that a correct user task never produces.
#[derive(Clone, Copy, PartialEq, Eq, Structural, Debug)]
pub enum EventError {
    /// The event is stamped before the task was entered.
    TimeWentBackwards,
    /// A task exited with a non-zero code (a register, stack or checksum
    /// failure in the user program).
    ExitFailure(usize),
    /// A task faulted that was not meant to, or with another cause than an
    /// illegal instruction.
    UnexpectedFault(usize),
}

/// A task of a finished batch that misses what it owes.
#[derive(Clone, Copy, PartialEq, Eq, Structural, Debug)]
pub enum FinishError {
    /// The task never finished.
    Unfinished(usize),
    /// A one-shot timer task took another number of interrupts than its limit.
    TimerCount(usize),
    /// A long compute task was never interrupted.
    NeverPreempted(usize),
    /// A yielding task escaped demotion under MLFQ.
    NoDemotion(usize),
}

/// `a - b`, or zero when `b` exceeds `a`.
pub open spec fn sat_sub(a: usize, b: usize) -> usize {
    if a >= b {
        (a - b) as usize
    } else {
        0
    }
}

/// Whether a register index is one that the initial frame sets.
pub open spec fn is_set_register(r: int) -> bool {
    r == 2 || r == 8 || r == 9 || r == 20 || r == 21
}

/// The frame a task starts from: stack pointer 16 bytes below its stack top,
/// `s0` its tag, `s1` its iteration count, `s4` its mode, `s5` the address of
/// the timer flag; everything else zero but the trusted status and the entry.
pub open spec fn is_initial_frame(f: TrapFrame, image: TaskImage, spec: Spec, i: int) -> bool {
    &&& f.x[2] == image.stack_tops[i] - 16
    &&& f.x[8] == TASK_TAG_BASE + i
    &&& f.x[9] == spec.iterations
    &&& f.x[20] == spec.mode
    &&& f.x[21] == image.timer_done
    &&& forall|r: int| 0 <= r < 32 && !is_set_register(r) ==> f.x[r] == 0
    &&& f.sstatus == image.sstatus
    &&& f.sepc == if spec.fault {
        image.fault_entry
    } else {
        image.entry
    }
    &&& f.scause == 0
    &&& f.stval == 0
}

/// A task as a batch admits it: ready since `base`, top level, full budget,
/// no history.
pub open spec fn is_initial_task(t: Task, image: TaskImage, spec: Spec, i: int, base: usize) -> bool {
    &&& is_initial_frame(t.frame, image, spec, i)
    &&& t.state == State::Ready
    &&& t.level == 0
    &&& t.slice == slice_for(0)
    &&& t.allot == allot_for(0)
    &&& t.timers == 0 && t.yields == 0 && t.syscalls == 0
    &&& t.demotions == 0 && t.preemptions == 0
    &&& t.first is None
    &&& t.completion == 0
    &&& t.ready_since == base
    &&& t.max_wait == 0
}

/// The task after it ran from `entered` until the event: its frame saved
/// and, under MLFQ, the run time taken from its slice and (above the lowest
/// level) its allotment.
pub open spec fn charged(t: Task, event: Event, entered: usize, mlfq: bool) -> Task {
    let delta = (event.time - entered) as usize;
    if mlfq {
        Task {
            frame: event.frame,
            slice: sat_sub(t.slice, delta),
            allot: if t.level < 2 {
                sat_sub(t.allot, delta)
            } else {
                t.allot
            },
            ..t
        }
    } else {
        Task { frame: event.frame, ..t }
    }
}

/// The task after the reason for the event is recorded: an exit or a fault
/// finishes it at the event time, anything else is counted.
pub open spec fn recorded(t: Task, reason: Reason, time: usize) -> Task {
    match reason {
        Reason::Exit(_) => Task { state: State::Done, completion: time, ..t },
        Reason::Fault(_) => Task { state: State::Done, completion: time, ..t },
        Reason::Yield => Task { yields: (t.yields + 1) as usize, ..t },
        Reason::Timer => Task { timers: (t.timers + 1) as usize, ..t },
        Reason::Syscall => Task { syscalls: (t.syscalls + 1) as usize, ..t },
    }
}

/// MLFQ bookkeeping for a task that is still alive: a used-up allotment
/// demotes it one level with that level's budget; otherwise a used-up slice
/// is refilled. The flag says whether either happened.
pub open spec fn mlfq_adjusted(t: Task) -> (Task, bool) {
    if t.level < 2 && t.allot == 0 {
        let level = (t.level + 1) as usize;
        (
            Task {
                level,
                demotions: (t.demotions + 1) as usize,
                slice: slice_for(level as int),
                allot: allot_for(level as int),
                ..t
            },
            true,
        )
    } else if t.slice == 0 {
        (Task { slice: slice_for(t.level as int), ..t }, true)
    } else {
        (t, false)
    }
}


/// Computes `charged`.
pub fn charge(t: Task, event: Event, entered: usize, mlfq: bool) -> (r: Task)
    requires
        mlfq ==> event.time >= entered,
    ensures
        r == charged(t, event, entered, mlfq),
{
    let mut t = t;
    t.frame = event.frame;
    if mlfq {
        let delta = event.time - entered;
        t.slice = t.slice.saturating_sub(delta);
        if t.level < 2 {
            t.allot = t.allot.saturating_sub(delta);
        }
    }
    t
}

/// Computes `recorded`.
pub fn record(t: Task, reason: Reason, time: usize) -> (r: Task)
    requires
        t.yields < usize::MAX,
        t.timers < usize::MAX,
        t.syscalls < usize::MAX,
    ensures
        r == recorded(t, reason, time),
{
    let mut t = t;
    match reason {
        Reason::Exit(_) => {
            t.state = State::Done;
            t.completion = time;
        },
        Reason::Fault(_) => {
            t.state = State::Done;
            t.completion = time;
        },
        Reason::Yield => {
            t.yields = t.yields + 1;
        },
        Reason::Timer => {
            t.timers = t.timers + 1;
        },
        Reason::Syscall => {
            t.syscalls = t.syscalls + 1;
        },
    }
    t
}

/// Computes `mlfq_adjusted`.
pub fn adjust_mlfq(t: Task) -> (r: (Task, bool))
    requires
        t.level <= 2,
        t.demotions < usize::MAX,
    ensures
        r == mlfq_adjusted(t),
        r.0.level <= 2,
{
    let mut t = t;
    if t.level < 2 && t.allot == 0 {
        t.level = t.level + 1;
        t.demotions = t.demotions + 1;
        t.budget();
        (t, true)
    } else if t.slice == 0 {
        let slices: [usize; 3] = [T, 2 * T, 4 * T];
        t.slice = slices[t.level];
        (t, true)
    } else {
        (t, false)
    }
}

/// `x` but at least one.
pub open spec fn at_least_one(x: usize) -> usize {
    if x == 0 {
        1
    } else {
        x
    }
}

/// Smaller of two values.
pub open spec fn min2(a: usize, b: usize) -> usize {
    if a <= b {
        a
    } else {
        b
    }
}

impl Batch {
    /// The switches recorded so far, oldest first.
    pub open spec fn trace_log(&self) -> Seq<(usize, Reason)> {
        self.trace@.subrange(0, self.trace_len as int)
    }

    /// Whether the policy is MLFQ.
    pub open spec fn mlfq(&self) -> bool {
        self.policy == Policy::Mlfq
    }

    /// Whether the policy uses the timer at all.
    pub open spec fn timed(&self) -> bool {
        self.policy != Policy::Yield
    }

    /// The invariant of a batch: the ready queue holds exactly the ready
    /// tasks, each once; the running task is exactly `current`; unused slots
    /// stay finished; levels are at most 2; the boost deadline is not before
    /// the start; the trace is within its capacity.
    pub open spec fn wf(&self) -> bool {
        &&& self.ready.wf()
        &&& 1 <= self.count <= N
        &&& forall|j: int|
            0 <= j < self.ready@.len() ==> self.ready@[j] < self.count && self.tasks[self.ready@[
                j
            ] as int].state == State::Ready
        &&& forall|id: int|
            0 <= id < self.count && self.tasks[id].state == State::Ready ==> self.ready@.contains(
                id as usize,
            )
        &&& forall|id: int|
            0 <= id < N ==> (self.tasks[id].state == State::Running <==> self.current == Some(
                id as usize,
            ))
        &&& self.current matches Some(c) ==> c < self.count
        &&& forall|id: int| self.count <= id < N ==> self.tasks[id].state == State::Done
        &&& forall|id: int| 0 <= id < N ==> self.tasks[id].level <= 2
        &&& self.base <= self.boost
        &&& self.trace_len <= TRACE_CAPACITY
    }

    /// Whether the counters that an event of the running task may bump
    /// are below their maximum.
    pub open spec fn event_room(&self) -> bool {
        let t = self.tasks[self.current.unwrap() as int];
        &&& self.dropped < usize::MAX
        &&& t.timers < usize::MAX
        &&& t.yields < usize::MAX
        &&& t.syscalls < usize::MAX
        &&& t.demotions < usize::MAX
        &&& t.preemptions < usize::MAX
    }

    /// Whether a boost at `now` is due.
    pub open spec fn boost_due(&self, now: usize) -> bool {
        self.mlfq() && now >= self.boost
    }

    /// The next boost deadline after a boost at `now`: the first whole boost
    /// period after `now`, counted from the start of the batch.
    pub open spec fn next_boost(&self, now: usize) -> int {
        self.base + ((now - self.base) / (BOOST_PERIOD as int) + 1) * BOOST_PERIOD
    }

    /// Whether `boost_if_due` can run at `now` without overflow.
    pub open spec fn boost_fits(&self, now: usize) -> bool {
        self.boost_due(now) ==> self.boosts < usize::MAX && self.next_boost(now) <= usize::MAX
    }

    /// Whether `select` can run at `now` without overflow.
    pub open spec fn select_fits(&self, now: usize) -> bool {
        self.current is None && self.ready@.len() > 0 ==> self.switches < usize::MAX && now + T
            <= usize::MAX
    }

    /// Whether `arm_deadline` can run at `now` without overflow.
    pub open spec fn arm_fits(&self, now: usize) -> bool {
        self.mlfq() ==> now + self.mlfq_window(now) <= usize::MAX
    }

    /// Whether `complete` can take `event` at `now` without overflow.
    pub open spec fn complete_fits(&self, event: Event, now: usize) -> bool {
        &&& self.event_room()
        &&& event.reason == Reason::Timer && self.policy is Timer ==> now + T <= usize::MAX
    }
}

impl Batch {
    /// Starts a batch at time `base`: each task of `specs` gets its slot in
    /// order, its initial frame, and a place in the ready queue; the first
    /// boost is due one boost period after `base`.
    pub fn new(policy: Policy, specs: &[Spec], base: usize, image: &TaskImage) -> (b: Batch)
        requires
            1 <= specs@.len() <= N,
            base + BOOST_PERIOD <= usize::MAX,
            forall|i: int| 0 <= i < specs@.len() ==> image.stack_tops[i] >= 16,
        ensures
            b.wf(),
            b.policy == policy,
            b.count == specs@.len(),
            forall|i: int| 0 <= i < specs@.len() ==> b.specs[i] == specs@[i],
            b.ready@ == Seq::new(specs@.len(), |i: int| i as usize),
            forall|i: int|
                0 <= i < specs@.len() ==> is_initial_task(b.tasks[i], *image, specs@[i], i, base),
            forall|i: int|
                0 <= i < specs@.len() ==> #[trigger] b.tasks[i].frame.x[2] == image.stack_tops[i]
                    - 16,
            forall|i: int| specs@.len() <= i < N ==> b.tasks[i].is_idle(),
            b.current is None,
            b.deadline == 0,
            b.boost == base + BOOST_PERIOD,
            b.base == base,
            b.switches == 0,
            b.boosts == 0,
            b.trace_log().len() == 0,
            b.dropped == 0,
    {
        let count = specs.len();
        let idle = Task::idle();
        let mut tasks: [Task; N] = [idle, idle, idle, idle];
        let mut ready = Ready::new();
        let mut kept = [Spec { mode: 0, iterations: 0, fault: false };N];
        let mut i: usize = 0;
        while i < count
            invariant
                count == specs@.len(),
                1 <= count <= N,
                i <= count,
                idle.is_idle(),
                forall|k: int| 0 <= k < count ==> image.stack_tops[k] >= 16,
                ready.wf(),
                ready@ == Seq::new(i as nat, |k: int| k as usize),
                forall|k: int| 0 <= k < i ==> kept[k] == specs@[k],
                forall|k: int| 0 <= k < i ==> is_initial_task(tasks[k], *image, specs@[k], k, base),
                forall|k: int| i <= k < N ==> tasks[k] == idle,
            decreases count - i,
        {
            let spec = specs[i];
            let mut frame = TrapFrame::zero();
            frame.sstatus = image.sstatus;
            frame.sepc = if spec.fault {
                image.fault_entry
            } else {
                image.entry
            };
            frame.x[2] = image.stack_tops[i] - 16;
            frame.x[8] = TASK_TAG_BASE + i;
            frame.x[9] = spec.iterations;
            frame.x[20] = spec.mode;
            frame.x[21] = image.timer_done;
            let t = Task { frame, state: State::Ready, ready_since: base, ..idle };
            tasks[i] = t;
            proof {
                assert(!ready@.contains(i)) by {
                    if ready@.contains(i) {
                        let j = choose|j: int| 0 <= j < ready@.len() && ready@[j] == i;
                    }
                }
            }
            let pushed = ready.push(i);
            assert(pushed is Ok);
            assert(ready@ =~= Seq::new(i as nat + 1, |k: int| k as usize));
            kept[i] = spec;
            i += 1;
        }
        let b = Batch {
            policy,
            count,
            specs: kept,
            tasks,
            ready,
            current: None,
            deadline: 0,
            boost: base + BOOST_PERIOD,
            base,
            switches: 0,
            boosts: 0,
            trace: [(0usize, Reason::Syscall);TRACE_CAPACITY],
            trace_len: 0,
            dropped: 0,
        };
        assert forall|id: int| 0 <= id < count && b.tasks[id].state == State::Ready implies b.ready@.contains(
            id as usize,
        ) by {
            assert(b.ready@[id] == id as usize);
        }
        b
    }

    /// Under MLFQ, once `now` reaches the boost deadline every unfinished
    /// task returns to the top level with a fresh budget, the boost is
    /// counted, and the next deadline becomes the first whole boost period
    /// after `now` (counted from the start of the batch). Otherwise nothing
    /// changes.
    pub fn boost_if_due(&mut self, now: usize)
        requires
            old(self).wf(),
            old(self).boost_fits(now),
        ensures
            final(self).wf(),
            !old(self).boost_due(now) ==> *final(self) == *old(self),
            old(self).boost_due(now) ==> {
                &&& final(self).boosts == old(self).boosts + 1
                &&& final(self).boost == old(self).next_boost(now)
                &&& forall|i: int|
                    0 <= i < N ==> #[trigger] final(self).tasks[i] == if i < old(self).count
                        && old(self).tasks[i].state != State::Done {
                        Task {
                            level: 0,
                            slice: slice_for(0),
                            allot: allot_for(0),
                            ..old(self).tasks[i]
                        }
                    } else {
                        old(self).tasks[i]
                    }
                &&& *final(self) == (Batch {
                    tasks: final(self).tasks,
                    boosts: final(self).boosts,
                    boost: final(self).boost,
                    ..*old(self)
                })
            },
            forall|i: int|
                0 <= i < N ==> #[trigger] final(self).tasks[i].state == old(self).tasks[i].state,
    {
        if !(self.policy == Policy::Mlfq && now >= self.boost) {
            return;
        }
        let ghost old_tasks = self.tasks;
        let mut k: usize = 0;
        while k < self.count
            invariant
                *self == (Batch { tasks: self.tasks, ..*old(self) }),
                old_tasks == old(self).tasks,
                old(self).wf(),
                old(self).boost_fits(now),
                now >= old(self).boost,
                old(self).mlfq(),
                self.count <= N,
                k <= self.count,
                forall|i: int|
                    0 <= i < N ==> #[trigger] self.tasks[i] == if i < k && old_tasks[i].state
                        != State::Done {
                        Task {
                            level: 0,
                            slice: slice_for(0),
                            allot: allot_for(0),
                            ..old_tasks[i]
                        }
                    } else {
                        old_tasks[i]
                    },
            decreases self.count - k,
        {
            if self.tasks[k].state != State::Done {
                let mut t = self.tasks[k];
                t.level = 0;
                t.budget();
                self.tasks[k] = t;
            }
            k += 1;
        }
        self.boosts = self.boosts + 1;
        let elapsed = now - self.base;
        let periods = elapsed / BOOST_PERIOD + 1;
        proof {
            assert(periods * BOOST_PERIOD <= self.base + periods * BOOST_PERIOD);
        }
        self.boost = self.base + periods * BOOST_PERIOD;
        proof {
            assert forall|id: int| 0 <= id < self.count && self.tasks[id].state == State::Ready implies self.ready@.contains(id as usize) by {
                assert(self.tasks[id].state == old_tasks[id].state);
            }
            assert forall|id: int| 0 <= id < N implies (self.tasks[id].state == State::Running <==> self.current == Some(id as usize)) by {
                assert(self.tasks[id].state == old_tasks[id].state);
            }
        }
    }

    /// Puts a task on the CPU if none is there: the next ready task (see
    /// `Ready::pop`) starts running, its longest ready wait and its first
    /// start are recorded, its quantum deadline is one quantum after `now`,
    /// and the switch is counted. Returns the task on the CPU, or `None`
    /// when nothing is left to run.
    pub fn select(&mut self, now: usize) -> (r: Option<usize>)
        requires
            old(self).wf(),
            old(self).select_fits(now),
        ensures
            final(self).wf(),
            old(self).current is Some ==> r == old(self).current && *final(self) == *old(self),
            old(self).current is None && old(self).ready@.len() == 0 ==> r is None
                && *final(self) == *old(self),
            old(self).current is None && old(self).ready@.len() > 0 ==> {
                let p = pick_pos(old(self).ready@, old(self).tasks@, old(self).mlfq());
                let i = old(self).ready@[p];
                let t = old(self).tasks[i as int];
                &&& 0 <= p < old(self).ready@.len()
                &&& r == Some(i)
                &&& final(self).ready@ == old(self).ready@.remove(p)
                &&& final(self).tasks@ == old(self).tasks@.update(
                    i as int,
                    Task {
                        state: State::Running,
                        max_wait: if t.max_wait >= sat_sub(now, t.ready_since) {
                            t.max_wait
                        } else {
                            sat_sub(now, t.ready_since)
                        },
                        first: if t.first is Some {
                            t.first
                        } else {
                            Some(now)
                        },
                        ..t
                    },
                )
                &&& *final(self) == (Batch {
                    ready: final(self).ready,
                    tasks: final(self).tasks,
                    current: Some(i),
                    deadline: (now + T) as usize,
                    switches: (old(self).switches + 1) as usize,
                    ..*old(self)
                })
            },
            forall|i: int|
                0 <= i < N && old(self).tasks[i].state == State::Done
                    ==> #[trigger] final(self).tasks[i].state == State::Done,
    {
        if self.current.is_some() {
            return self.current;
        }
        let ghost q = self.ready@;
        proof {
            self.ready.lemma_wf();
        }
        let popped = self.ready.pop(&self.tasks, self.policy == Policy::Mlfq);
        match popped {
            None => None,
            Some(i) => {
                let ghost p = pick_pos(q, self.tasks@, self.policy == Policy::Mlfq);
                proof {
                    lemma_remove_members(q, p);
                    assert(q[p] < self.count);
                }
                let mut t = self.tasks[i];
                t.state = State::Running;
                let waited = now.saturating_sub(t.ready_since);
                if waited > t.max_wait {
                    t.max_wait = waited;
                }
                if t.first.is_none() {
                    t.first = Some(now);
                }
                let ghost old_tasks = self.tasks;
                self.tasks[i] = t;
                self.current = Some(i);
                self.deadline = now + T;
                self.switches = self.switches + 1;
                proof {
                    assert(self.tasks@ =~= old_tasks@.update(i as int, t));
                    assert forall|j: int| 0 <= j < self.ready@.len() implies self.ready@[j]
                        < self.count && self.tasks[self.ready@[j] as int].state == State::Ready by {
                        let v = self.ready@[j];
                        assert(self.ready@.contains(v));
                        assert(q.contains(v) && v != i);
                        let k = choose|k: int| 0 <= k < q.len() && q[k] == v;
                        assert(old_tasks[q[k] as int].state == State::Ready);
                    }
                    assert forall|id: int| 0 <= id < self.count && self.tasks[id].state == State::Ready implies self.ready@.contains(id as usize) by {
                        assert(id != i);
                        assert(old_tasks[id].state == State::Ready);
                        assert(q.contains(id as usize));
                    }
                    assert forall|id: int| 0 <= id < N implies (self.tasks[id].state
                        == State::Running <==> self.current == Some(id as usize)) by {
                        if id != i {
                            assert(self.tasks[id] == old_tasks[id]);
                        }
                    }
                }
                Some(i)
            },
        }
    }

    /// The ticks the running task may use before its next timer interrupt
    /// under MLFQ: what is left of its slice, of its allotment, and of the
    /// time until the next boost, whichever is least, but at least one.
    pub open spec fn mlfq_window(&self, now: usize) -> usize {
        let t = self.tasks[self.current.unwrap() as int];
        at_least_one(min2(min2(t.slice, t.allot), sat_sub(self.boost, now)))
    }

    /// Computes `mlfq_window`.
    fn window(&self, now: usize) -> (w: usize)
        requires
            self.wf(),
            self.current is Some,
        ensures
            w == self.mlfq_window(now),
    {
        let t = self.tasks[self.current.unwrap()];
        let mut available = if t.slice <= t.allot {
            t.slice
        } else {
            t.allot
        };
        let until_boost = self.boost.saturating_sub(now);
        if until_boost < available {
            available = until_boost;
        }
        if available == 0 {
            available = 1;
        }
        available
    }

    /// Decides the timer for the running task's turn. Under MLFQ the
    /// deadline becomes `now` plus the task's window. Returns the deadline
    /// to arm, or `None` under the cooperative policy and once a task of the
    /// one-shot timer policy has had its number of interrupts.
    pub fn arm_deadline(&mut self, now: usize) -> (r: Option<usize>)
        requires
            old(self).wf(),
            old(self).current is Some,
            old(self).arm_fits(now),
        ensures
            final(self).wf(),
            *final(self) == (Batch {
                deadline: if old(self).mlfq() {
                    (now + old(self).mlfq_window(now)) as usize
                } else {
                    old(self).deadline
                },
                ..*old(self)
            }),
            r == if !old(self).timed() || (old(self).policy matches Policy::Timer(limit)
                && old(self).tasks[old(self).current.unwrap() as int].timers >= limit) {
                None
            } else {
                Some(final(self).deadline)
            },
    {
        let i = self.current.unwrap();
        if self.policy == Policy::Yield {
            return None;
        }
        if self.policy == Policy::Mlfq {
            let available = self.window(now);
            self.deadline = now + available;
        }
        match self.policy {
            Policy::Timer(limit) => {
                if self.tasks[i].timers >= limit {
                    return None;
                }
            },
            _ => {},
        }
        Some(self.deadline)
    }

    /// What is wrong with `event` for the running task, if anything: under
    /// MLFQ an event stamped before the task was entered; an exit with a
    /// non-zero code; a fault of a task that was not meant to fault, or with
    /// a cause other than an illegal instruction (2).
    pub open spec fn event_error(&self, event: Event, entered: usize) -> Option<EventError> {
        let i = self.current.unwrap() as int;
        if self.mlfq() && event.time < entered {
            Some(EventError::TimeWentBackwards)
        } else {
            match event.reason {
                Reason::Exit(code) => if code != 0 {
                    Some(EventError::ExitFailure(code))
                } else {
                    None
                },
                Reason::Fault(cause) => if self.specs[i].fault && cause == 2 {
                    None
                } else {
                    Some(EventError::UnexpectedFault(cause))
                },
                _ => None,
            }
        }
    }

    /// The running task after `event` is charged, recorded and (under MLFQ)
    /// adjusted, and whether it goes back to the ready queue: it does after a
    /// yield, after a timer interrupt unless the policy counts one-shot
    /// interrupts, under MLFQ after a demotion, a used-up slice or once the
    /// boost is due, and under round robin once its quantum deadline has
    /// passed; a finished task never does.
    pub open spec fn settled(&self, event: Event, entered: usize) -> (Task, bool) {
        let i = self.current.unwrap() as int;
        let t = recorded(
            charged(self.tasks[i], event, entered, self.mlfq()),
            event.reason,
            event.time,
        );
        let asked = event.reason == Reason::Yield || (event.reason == Reason::Timer
            && !(self.policy is Timer));
        if t.state != State::Done && self.mlfq() {
            let (adjusted, changed) = mlfq_adjusted(t);
            (adjusted, asked || changed || event.time >= self.boost)
        } else if t.state != State::Done && self.policy == Policy::Rr && event.time
            >= self.deadline {
            (t, true)
        } else {
            (t, asked)
        }
    }

    /// Whether a one-shot timer task has just taken its last interrupt.
    pub open spec fn timer_exhausted(&self, event: Event, entered: usize) -> bool {
        &&& event.reason == Reason::Timer
        &&& self.policy matches Policy::Timer(limit) && self.settled(event, entered).0.timers
            == limit
    }


    /// Computes `settled` for a valid event.
    fn settle(&self, event: Event, entered: usize) -> (r: (Task, bool))
        requires
            self.wf(),
            self.current is Some,
            self.event_room(),
            self.event_error(event, entered) is None,
        ensures
            r == self.settled(event, entered),
    {
        let i = self.current.unwrap();
        let mlfq = self.policy == Policy::Mlfq;
        let t = record(charge(self.tasks[i], event, entered, mlfq), event.reason, event.time);
        let asked = match event.reason {
            Reason::Yield => true,
            Reason::Timer => !matches!(self.policy, Policy::Timer(_)),
            _ => false,
        };
        if t.state != State::Done && mlfq {
            let (adjusted, changed) = adjust_mlfq(t);
            (adjusted, asked || changed || event.time >= self.boost)
        } else if t.state != State::Done && self.policy == Policy::Rr && event.time
            >= self.deadline {
            (t, true)
        } else {
            (t, asked)
        }
    }

    /// Takes back the CPU after `event` from the running task (see `settled`):
    /// a finished task leaves the CPU; a task that goes back to the ready
    /// queue is ready again since `now`, joins the back of the queue and, if
    /// it was interrupted or made a system call, counts a preemption; a
    /// one-shot timer task that is not exhausted gets a new deadline one
    /// quantum after `now`. Every event but a served system call that keeps
    /// the task on the CPU is traced, or counted as dropped once the trace is
    /// full. Returns whether the timer must now stop for good; an erroneous
    /// event (see `event_error`) is refused and changes nothing.
    pub fn complete(&mut self, event: Event, entered: usize, now: usize) -> (r: Result<
        bool,
        EventError,
    >)
        requires
            old(self).wf(),
            old(self).current is Some,
            old(self).complete_fits(event, now),
        ensures
            final(self).wf(),
            r is Err <==> old(self).event_error(event, entered) is Some,
            r matches Err(e) ==> old(self).event_error(event, entered) == Some(e) && *final(self)
                == *old(self),
            r is Ok ==> {
                let i = old(self).current.unwrap();
                let (t, requeue) = old(self).settled(event, entered);
                let logged = event.reason != Reason::Syscall || requeue;
                let traced = logged && old(self).trace_len < TRACE_CAPACITY;
                &&& r == Ok::<bool, EventError>(old(self).timer_exhausted(event, entered))
                &&& final(self).tasks@ == old(self).tasks@.update(
                    i as int,
                    if requeue {
                        Task {
                            state: State::Ready,
                            ready_since: now,
                            preemptions: if event.reason == Reason::Timer || event.reason
                                == Reason::Syscall {
                                (t.preemptions + 1) as usize
                            } else {
                                t.preemptions
                            },
                            ..t
                        }
                    } else {
                        t
                    },
                )
                &&& final(self).ready@ == if requeue {
                    old(self).ready@.push(i)
                } else {
                    old(self).ready@
                }
                &&& final(self).current == if t.state == State::Done || requeue {
                    None
                } else {
                    old(self).current
                }
                &&& final(self).deadline == if event.reason == Reason::Timer
                    && old(self).policy is Timer && !old(self).timer_exhausted(event, entered) {
                    (now + T) as usize
                } else {
                    old(self).deadline
                }
                &&& final(self).trace_log() == if traced {
                    old(self).trace_log().push((i, event.reason))
                } else {
                    old(self).trace_log()
                }
                &&& final(self).dropped == if logged && !traced {
                    (old(self).dropped + 1) as usize
                } else {
                    old(self).dropped
                }
                &&& *final(self) == (Batch {
                    tasks: final(self).tasks,
                    ready: final(self).ready,
                    current: final(self).current,
                    deadline: final(self).deadline,
                    trace: final(self).trace,
                    trace_len: final(self).trace_len,
                    dropped: final(self).dropped,
                    ..*old(self)
                })
            },
            forall|j: int|
                0 <= j < N && old(self).tasks[j].state == State::Done
                    ==> #[trigger] final(self).tasks[j].state == State::Done,
    {
        let i = self.current.unwrap();
        let mlfq = self.policy == Policy::Mlfq;
        if mlfq && event.time < entered {
            return Err(EventError::TimeWentBackwards);
        }
        match event.reason {
            Reason::Exit(code) => {
                if code != 0 {
                    return Err(EventError::ExitFailure(code));
                }
            },
            Reason::Fault(cause) => {
                if !(self.specs[i].fault && cause == 2) {
                    return Err(EventError::UnexpectedFault(cause));
                }
            },
            _ => {},
        }
        let ghost old_self = *self;
        let ghost q = self.ready@;
        proof {
            self.ready.lemma_wf();
        }
        let (mut t, requeue) = self.settle(event, entered);
        let stop = match self.policy {
            Policy::Timer(limit) => match event.reason {
                Reason::Timer => {
                    if t.timers == limit {
                        true
                    } else {
                        self.deadline = now + T;
                        false
                    }
                },
                _ => false,
            },
            _ => false,
        };

        if requeue {
            match event.reason {
                Reason::Timer | Reason::Syscall => {
                    t.preemptions = t.preemptions + 1;
                },
                _ => {},
            }
            t.state = State::Ready;
            t.ready_since = now;
        }
        self.tasks[i] = t;
        if t.state == State::Done || requeue {
            self.current = None;
        }
        if requeue {
            proof {
                assert(!q.contains(i)) by {
                    if q.contains(i) {
                        let k = choose|k: int| 0 <= k < q.len() && q[k] == i;
                        assert(old_self.tasks[q[k] as int].state == State::Ready);
                    }
                }
                lemma_len_below_missing(q, self.count, i);
            }
            let pushed = self.ready.push(i);
            assert(pushed is Ok);
        }
        let logged = match event.reason {
            Reason::Syscall => requeue,
            _ => true,
        };
        if logged {
            if self.trace_len < TRACE_CAPACITY {
                let ghost before = self.trace_log();
                self.trace[self.trace_len] = (i, event.reason);
                self.trace_len = self.trace_len + 1;
                assert(self.trace_log() =~= before.push((i, event.reason)));
            } else {
                self.dropped = self.dropped + 1;
            }
        }
        proof {
            assert(self.tasks@ =~= old_self.tasks@.update(i as int, t));
            assert forall|j: int| 0 <= j < self.ready@.len() implies self.ready@[j] < self.count
                && self.tasks[self.ready@[j] as int].state == State::Ready by {
                if j < q.len() {
                    assert(self.ready@[j] == q[j]);
                    assert(q[j] != i) by {
                        assert(old_self.tasks[q[j] as int].state == State::Ready);
                    }
                }
            }
            assert forall|id: int| 0 <= id < self.count && self.tasks[id].state == State::Ready implies self.ready@.contains(id as usize) by {
                if id == i {
                    assert(self.ready@[self.ready@.len() - 1] == i);
                } else {
                    assert(q.contains(id as usize));
                    let k = choose|k: int| 0 <= k < q.len() && q[k] == id as usize;
                    assert(self.ready@[k] == q[k]);
                }
            }
            assert forall|id: int| 0 <= id < N implies (self.tasks[id].state == State::Running
                <==> self.current == Some(id as usize)) by {
                if id != i {
                    assert(self.tasks[id] == old_self.tasks[id]);
                }
            }
        }
        Ok(stop)
    }

    /// The ready-queue check of a running batch; it always passes (see
    /// `lemma_wf_queue_consistent`).
    pub fn check(&self) -> (ok: bool)
        requires
            self.wf(),
        ensures
            ok == queue_consistent(self.ready@, self.tasks@, self.count as int),
            ok,
    {
        proof {
            lemma_wf_queue_consistent(*self);
        }
        self.ready.check(&self.tasks, self.count)
    }

    /// Whether `boost_if_due` may run at `now` (see `boost_fits`).
    pub fn can_boost(&self, now: usize) -> (b: bool)
        requires
            self.wf(),
        ensures
            b == self.boost_fits(now),
    {
        if !(self.policy == Policy::Mlfq && now >= self.boost) {
            return true;
        }
        if self.boosts == usize::MAX {
            return false;
        }
        let periods = (now - self.base) / BOOST_PERIOD + 1;
        match periods.checked_mul(BOOST_PERIOD) {
            Some(span) => self.base.checked_add(span).is_some(),
            None => {
                proof {
                    assert(self.base + periods * BOOST_PERIOD > usize::MAX);
                }
                false
            },
        }
    }

    /// Whether `select` may run at `now` (see `select_fits`).
    pub fn can_select(&self, now: usize) -> (b: bool)
        requires
            self.wf(),
        ensures
            b == self.select_fits(now),
    {
        if self.current.is_none() && self.ready.len() > 0 {
            self.switches < usize::MAX && now <= usize::MAX - T
        } else {
            true
        }
    }

    /// Whether `arm_deadline` may run at `now` (see `arm_fits`).
    pub fn can_arm(&self, now: usize) -> (b: bool)
        requires
            self.wf(),
            self.current is Some,
        ensures
            b == self.arm_fits(now),
    {
        if self.policy == Policy::Mlfq {
            now <= usize::MAX - self.window(now)
        } else {
            true
        }
    }

    /// Whether `complete` may take `event` at `now` (see `complete_fits`).
    pub fn can_complete(&self, event: &Event, now: usize) -> (b: bool)
        requires
            self.wf(),
            self.current is Some,
        ensures
            b == self.complete_fits(*event, now),
    {
        let t = self.tasks[self.current.unwrap()];
        let room = self.dropped < usize::MAX && t.timers < usize::MAX && t.yields < usize::MAX
            && t.syscalls < usize::MAX && t.demotions < usize::MAX && t.preemptions < usize::MAX;
        let timer_fits = match (event.reason, self.policy) {
            (Reason::Timer, Policy::Timer(_)) => now <= usize::MAX - T,
            _ => true,
        };
        room && timer_fits
    }

    /// What a finished batch owes for task `i`, if it is not met: the task
    /// is done; a one-shot timer task (mode 4) took exactly its number of
    /// interrupts; a long compute task (mode 1, at least a million
    /// iterations) was interrupted at least once under a timed policy; a
    /// yielding task (mode 2) was demoted at least once under MLFQ.
    pub open spec fn finish_error(&self, i: int) -> Option<FinishError> {
        let t = self.tasks[i];
        let spec = self.specs[i];
        if t.state != State::Done {
            Some(FinishError::Unfinished(i as usize))
        } else if spec.mode == 4 && (self.policy matches Policy::Timer(limit) && t.timers
            != limit) {
            Some(FinishError::TimerCount(i as usize))
        } else if spec.mode == 1 && spec.iterations >= 1_000_000 && self.timed() && t.timers
            == 0 {
            Some(FinishError::NeverPreempted(i as usize))
        } else if spec.mode == 2 && self.mlfq() && t.demotions == 0 {
            Some(FinishError::NoDemotion(i as usize))
        } else {
            None
        }
    }

    /// Checks a finished batch task by task and reports the first task that
    /// misses what it owes (see `finish_error`).
    pub fn check_finished(&self) -> (r: Result<(), FinishError>)
        requires
            self.wf(),
        ensures
            (exists|i: int|
                0 <= i < self.count && self.policy != Policy::Yield && #[trigger] self.specs[i].mode
                    == 1 && self.specs[i].iterations >= 1_000_000 && self.tasks[i].timers == 0)
                ==> r is Err,
            r is Ok <==> forall|i: int| 0 <= i < self.count ==> self.finish_error(i) is None,
            r matches Err(e) ==> exists|i: int|
                0 <= i < self.count && self.finish_error(i) == Some(e) && forall|j: int|
                    0 <= j < i ==> self.finish_error(j) is None,
    {
        let mut i: usize = 0;
        while i < self.count
            invariant
                self.wf(),
                i <= self.count,
                forall|j: int| 0 <= j < i ==> #[trigger] self.finish_error(j) is None,
            decreases self.count - i,
        {
            let t = self.tasks[i];
            let spec = self.specs[i];
            if t.state != State::Done {
                assert(self.finish_error(i as int) == Some(FinishError::Unfinished(i)));
                return Err(FinishError::Unfinished(i));
            }
            if spec.mode == 4 {
                match self.policy {
                    Policy::Timer(limit) => {
                        if t.timers != limit {
                            assert(self.finish_error(i as int) == Some(FinishError::TimerCount(i)));
                            return Err(FinishError::TimerCount(i));
                        }
                    },
                    _ => {},
                }
            }
            if spec.mode == 1 && spec.iterations >= 1_000_000 && self.policy != Policy::Yield
                && t.timers == 0 {
                assert(self.finish_error(i as int) == Some(FinishError::NeverPreempted(i)));
                return Err(FinishError::NeverPreempted(i));
            }
            if spec.mode == 2 && self.policy == Policy::Mlfq && t.demotions == 0 {
                assert(self.finish_error(i as int) == Some(FinishError::NoDemotion(i)));
                return Err(FinishError::NoDemotion(i));
            }
            i += 1;
        }
        proof {
            if exists|k: int|
                0 <= k < self.count && self.policy != Policy::Yield && #[trigger] self.specs[k].mode
                    == 1 && self.specs[k].iterations >= 1_000_000 && self.tasks[k].timers == 0 {
                let k = choose|k: int|
                    0 <= k < self.count && self.policy != Policy::Yield && #[trigger] self.specs[
                        k
                    ].mode == 1 && self.specs[k].iterations >= 1_000_000 && self.tasks[k].timers
                        == 0;
                assert(self.finish_error(k) is None);
            }
        }
        Ok(())
    }

    /// Response and turnaround of task `i`, both counted from the start of
    /// the batch; `None` unless the task has started and both instants are
    /// not before the start.
    pub fn response_times(&self, i: usize) -> (r: Option<(usize, usize)>)
        requires
            i < N,
        ensures
            r == if self.tasks[i as int].first matches Some(f) && f >= self.base
                && self.tasks[i as int].completion >= self.base {
                Some(
                    (
                        (self.tasks[i as int].first.unwrap() - self.base) as usize,
                        (self.tasks[i as int].completion - self.base) as usize,
                    ),
                )
            } else {
                None
            },
    {
        let t = self.tasks[i];
        match t.first {
            Some(f) => {
                if f >= self.base && t.completion >= self.base {
                    Some((f - self.base, t.completion - self.base))
                } else {
                    None
                }
            },
            None => None,
        }
    }
}

/// Removing position `p` from a queue without duplicates drops exactly the
/// value at `p`.
pub proof fn lemma_remove_members(q: Seq<usize>, p: int)
    requires
        q.no_duplicates(),
        0 <= p < q.len(),
    ensures
        q.remove(p).no_duplicates(),
        forall|v: usize| #[trigger]
            q.remove(p).contains(v) <==> q.contains(v) && v != q[p],
        forall|j: int|
            0 <= j < q.remove(p).len() ==> #[trigger] q.remove(p)[j] == if j < p {
                q[j]
            } else {
                q[j + 1]
            },
{
    let r = q.remove(p);
    q.remove_ensures(p);
    assert forall|a: int, b: int| 0 <= a < b < r.len() implies r[a] != r[b] by {
        let qa = if a < p { a } else { a + 1 };
        let qb = if b < p { b } else { b + 1 };
        assert(r[a] == q[qa] && r[b] == q[qb]);
    }
    assert forall|v: usize| #[trigger] r.contains(v) <==> q.contains(v) && v != q[p] by {
        if r.contains(v) {
            let j = choose|j: int| 0 <= j < r.len() && r[j] == v;
            let qj = if j < p { j } else { j + 1 };
            assert(q[qj] == v);
        }
        if q.contains(v) && v != q[p] {
            let j = choose|j: int| 0 <= j < q.len() && q[j] == v;
            if j < p {
                assert(r[j] == v);
            } else {
                assert(j != p);
                assert(r[j - 1] == v);
            }
        }
    }
}

/// Under MLFQ, a task that is still alive after its event, used up its slice
/// while running, and was not demoted gets the full slice of its own level:
/// 10 000 ticks at level 0, 20 000 at level 1, 40 000 at level 2.
pub proof fn lemma_refilled_slice_matches_level(b: Batch, event: Event, entered: usize)
    requires
        b.wf(),
        b.policy == Policy::Mlfq,
        b.current is Some,
        event.time >= entered,
        !(event.reason is Exit),
        !(event.reason is Fault),
        b.tasks[b.current.unwrap() as int].slice <= event.time - entered,
        b.settled(event, entered).0.level == b.tasks[b.current.unwrap() as int].level,
    ensures
        ({
            let level = b.tasks[b.current.unwrap() as int].level;
            let slice = b.settled(event, entered).0.slice;
            &&& level == 0 ==> slice == 10_000
            &&& level == 1 ==> slice == 20_000
            &&& level == 2 ==> slice == 40_000
        }),
{
}

/// A demotion moves a task one level down with that level's budget: 20 000
/// ticks of slice and 40 000 of allotment at level 1, 40 000 ticks of slice
/// and no allotment limit at level 2.
pub proof fn lemma_demotion_budget(b: Batch, event: Event, entered: usize)
    requires
        b.wf(),
        b.policy == Policy::Mlfq,
        b.current is Some,
        event.time >= entered,
        b.event_room(),
        b.settled(event, entered).0.state != State::Done,
        b.settled(event, entered).0.level != b.tasks[b.current.unwrap() as int].level,
    ensures
        ({
            let before = b.tasks[b.current.unwrap() as int];
            let after = b.settled(event, entered).0;
            &&& after.level == before.level + 1
            &&& after.level == 1 ==> after.slice == 20_000 && after.allot == 40_000
            &&& after.level == 2 ==> after.slice == 40_000 && after.allot == usize::MAX
            &&& after.demotions == before.demotions + 1
            &&& b.settled(event, entered).1
        }),
{
}

/// Under MLFQ the window of the running task never exceeds what is left of
/// its slice, of its allotment, or of the time to the boost deadline (each
/// taken as at least one tick), and it is at least one tick.
pub proof fn lemma_window_bounds(b: Batch, now: usize)
    requires
        b.current is Some,
    ensures
        ({
            let t = b.tasks[b.current.unwrap() as int];
            let w = b.mlfq_window(now) as int;
            &&& w >= 1
            &&& w <= t.slice || w == 1
            &&& w <= t.allot || w == 1
            &&& now + w <= b.boost || w == 1
            &&& (w == t.slice || w == t.allot || now + w == b.boost || w == 1)
        }),
{
}

/// Every admitted task starts 16 bytes below the top of its own user stack,
/// so tasks with distinct stack tops start on distinct stacks.
pub proof fn lemma_initial_stacks(tasks: [Task; N], image: TaskImage, specs: Seq<Spec>, base: usize)
    requires
        specs.len() <= N,
        forall|i: int|
            0 <= i < specs.len() ==> is_initial_task(tasks[i], image, specs[i], i, base),
    ensures
        forall|i: int|
            0 <= i < specs.len() ==> #[trigger] tasks[i].frame.x[2] == image.stack_tops[i] - 16,
        forall|i: int, j: int|
            0 <= i < specs.len() && 0 <= j < specs.len() && image.stack_tops[i]
                != image.stack_tops[j] ==> tasks[i].frame.x[2] != tasks[j].frame.x[2],
{
    assert forall|i: int| 0 <= i < specs.len() implies #[trigger] tasks[i].frame.x[2]
        == image.stack_tops[i] - 16 by {
        assert(is_initial_task(tasks[i], image, specs[i], i, base));
    }
    assert forall|i: int, j: int|
        0 <= i < specs.len() && 0 <= j < specs.len() && image.stack_tops[i]
            != image.stack_tops[j] implies tasks[i].frame.x[2] != tasks[j].frame.x[2] by {
        assert(is_initial_task(tasks[i], image, specs[i], i, base));
        assert(is_initial_task(tasks[j], image, specs[j], j, base));
    }
}

/// Under every timed policy (one-shot timer, round robin, MLFQ) a long
/// compute task (mode 1, at least a million iterations) that was never
/// interrupted fails the finish check; only the cooperative policy lets it
/// pass.
pub proof fn lemma_never_preempted_fails(b: Batch, i: int)
    requires
        0 <= i < b.count,
        b.policy != Policy::Yield,
        b.tasks[i].state == State::Done,
        b.specs[i].mode == 1,
        b.specs[i].iterations >= 1_000_000,
        b.tasks[i].timers == 0,
    ensures
        b.finish_error(i) == Some(FinishError::NeverPreempted(i as usize)),
{
}

/// A well-formed batch passes the ready-queue check: no more queued ids than
/// tasks, only ready tasks queued, every ready task queued exactly once and
/// no other, and at most one task running.
pub proof fn lemma_wf_queue_consistent(b: Batch)
    requires
        b.wf(),
    ensures
        queue_consistent(b.ready@, b.tasks@, b.count as int),
{
    let q = b.ready@;
    b.ready.lemma_wf();
    lemma_len_below(q, b.count);
    assert forall|id: int| 0 <= id < b.count implies count_of(q, id as usize) == if b.tasks@[
        id
    ].state == State::Ready {
        1nat
    } else {
        0nat
    } by {
        lemma_count_of_no_dup(q, id as usize);
        if b.tasks@[id].state != State::Ready && q.contains(id as usize) {
            let j = choose|j: int| 0 <= j < q.len() && q[j] == id as usize;
            assert(b.tasks[q[j] as int].state == State::Ready);
        }
    }
    lemma_running_count(b.tasks@, b.count as int, b.current);
}

/// The state of one scheduling batch: its tasks, the ready queue, the task
/// on the CPU and the timer bookkeeping.
pub struct Batch {
    pub policy: Policy,
    pub count: usize,
    pub specs: [Spec; N],
    pub tasks: [Task; N],
    pub ready: Ready,
    pub current: Option<usize>,
    pub deadline: usize,
    pub boost: usize,
    pub base: usize,
    pub switches: usize,
    pub boosts: usize,
    pub trace: [(usize, Reason); TRACE_CAPACITY],
    pub trace_len: usize,
    pub dropped: usize,
}

} // verus!
