//! Programs, processes and their states, process ids, and the process
//! model run.

use vstd::prelude::*;

use crate::memory::Region;

verus! {

/// A stable description of linked code: its name, entry and code range.
/// Running instances of it are `Process`es.
pub struct Program {
    name: &'static str,
    entry: usize,
    code_start: usize,
    code_end: usize,
}

/// Why a linked code range cannot describe a program.
#[derive(Clone, Copy, PartialEq, Eq, Structural, Debug)]
pub enum ProgramError {
    /// The code range is empty or inverted.
    InvalidCodeRange,
    /// The entry is outside the code range.
    EntryOutsideCode,
}

impl Program {
    pub closed spec fn spec_name(&self) -> &'static str {
        self.name
    }

    pub closed spec fn spec_entry(&self) -> usize {
        self.entry
    }

    pub closed spec fn spec_code(&self) -> Region {
        Region { start: self.code_start, end: self.code_end }
    }

    /// Describes the linked code `[code_start, code_end)` entered at
    /// `entry`; refuses an empty or inverted range, then an entry outside it.
    pub fn from_linked(name: &'static str, entry: usize, code_start: usize, code_end: usize) -> (r:
        Result<Program, ProgramError>)
        ensures
            code_start >= code_end ==> r == Err::<Program, ProgramError>(
                ProgramError::InvalidCodeRange,
            ),
            code_start < code_end && !(code_start <= entry < code_end) ==> r == Err::<
                Program,
                ProgramError,
            >(ProgramError::EntryOutsideCode),
            r is Ok <==> code_start <= entry < code_end,
            r matches Ok(p) ==> p.spec_name() == name && p.spec_entry() == entry && p.spec_code()
                == (Region { start: code_start, end: code_end }),
    {
        if code_start >= code_end {
            return Err(ProgramError::InvalidCodeRange);
        }
        if entry < code_start || entry >= code_end {
            return Err(ProgramError::EntryOutsideCode);
        }
        Ok(Program { name, entry, code_start, code_end })
    }

    /// The linked "hello" model program.
    pub fn linked_hello(code_start: usize, entry: usize, code_end: usize) -> (r: Result<
        Program,
        ProgramError,
    >)
        ensures
            r is Ok <==> code_start <= entry < code_end,
            code_start >= code_end ==> r == Err::<Program, ProgramError>(
                ProgramError::InvalidCodeRange,
            ),
            r matches Ok(p) ==> p.spec_name() == "hello" && p.spec_entry() == entry
                && p.spec_code() == (Region { start: code_start, end: code_end }),
    {
        Program::from_linked("hello", entry, code_start, code_end)
    }

    pub fn name(&self) -> (n: &'static str)
        ensures
            n == self.spec_name(),
    {
        self.name
    }

    pub fn entry(&self) -> (e: usize)
        ensures
            e == self.spec_entry(),
    {
        self.entry
    }

    pub fn code_range(&self) -> (r: Region)
        ensures
            r == self.spec_code(),
    {
        Region { start: self.code_start, end: self.code_end }
    }
}

/// What a user fault reported: cause, faulting PC and trap value.
#[derive(Clone, Copy, PartialEq, Eq, Structural, Debug)]
pub struct FaultInfo {
    pub cause: usize,
    pub sepc: usize,
    pub stval: usize,
}

/// Where a process is in its life.
#[derive(Clone, Copy, PartialEq, Eq, Structural, Debug)]
pub enum ProcessState {
    Ready,
    Running,
    Exited(i32),
    Faulted(FaultInfo),
}

/// A refused state change: the state the process kept and the one asked for.
#[derive(Clone, Copy, PartialEq, Eq, Structural, Debug)]
pub struct InvalidTransition {
    pub from: ProcessState,
    pub to: ProcessState,
}

/// The state changes a process may make: a ready process starts running,
/// and a running process exits or faults.
pub open spec fn allowed(from: ProcessState, to: ProcessState) -> bool {
    ||| from == ProcessState::Ready && to == ProcessState::Running
    ||| from == ProcessState::Running && to is Exited
    ||| from == ProcessState::Running && to is Faulted
}

/// A process that exited or faulted is finished: no change is allowed out
/// of it, and nothing leads back to `Ready`.
pub proof fn lemma_finished_is_final(from: ProcessState, to: ProcessState)
    ensures
        (from is Exited || from is Faulted) ==> !allowed(from, to),
        !allowed(from, ProcessState::Ready),
{
}

/// The user-visible register state a process starts from.
#[derive(Clone, Copy)]
pub struct UserContext {
    pub x: [usize; 32],
    pub sepc: usize,
    pub sstatus: usize,
}

impl UserContext {
    /// Starts at `entry` on the stack `user_sp` with status `sstatus`; every
    /// other register is zero.
    pub fn new(entry: usize, user_sp: usize, sstatus: usize) -> (c: UserContext)
        ensures
            c.sepc == entry,
            c.sstatus == sstatus,
            c.x[2] == user_sp,
            forall|i: int| 0 <= i < 32 && i != 2 ==> c.x[i] == 0,
    {
        let mut x = [0usize; 32];
        x[2] = user_sp;
        UserContext { x, sepc: entry, sstatus }
    }
}

/// The stacks and initial context a process runs in user mode with.
#[derive(Clone, Copy)]
pub struct UserRuntime {
    pub user_stack: Region,
    pub trap_stack: Region,
    pub context: UserContext,
}

/// One running instance of a program. Instances share their program and
/// keep their own id and state.
pub struct Process<'program> {
    id: u64,
    program: &'program Program,
    state: ProcessState,
    runtime: Option<UserRuntime>,
}

impl<'program> Process<'program> {
    pub closed spec fn spec_id(&self) -> u64 {
        self.id
    }

    pub closed spec fn spec_state(&self) -> ProcessState {
        self.state
    }

    pub closed spec fn spec_program(&self) -> Program {
        *self.program
    }

    pub closed spec fn spec_runtime(&self) -> Option<UserRuntime> {
        self.runtime
    }

    /// A ready instance of `program` with the given id and no user runtime.
    pub fn new(id: u64, program: &'program Program) -> (p: Process<'program>)
        ensures
            p.spec_id() == id,
            p.spec_program() == *program,
            p.spec_state() == ProcessState::Ready,
            p.spec_runtime() is None,
    {
        Process { id, program, state: ProcessState::Ready, runtime: None }
    }

    /// The single entry for state changes: makes an allowed change, and
    /// refuses any other with both states while keeping the current one.
    pub fn transition(&mut self, next: ProcessState) -> (r: Result<(), InvalidTransition>)
        ensures
            r is Ok <==> allowed(old(self).spec_state(), next),
            r is Ok ==> final(self).spec_state() == next,
            r is Err ==> final(self).spec_state() == old(self).spec_state(),
            r matches Err(e) ==> e == (InvalidTransition { from: old(self).spec_state(), to: next }),
            final(self).spec_id() == old(self).spec_id(),
            final(self).spec_program() == old(self).spec_program(),
            final(self).spec_runtime() == old(self).spec_runtime(),
    {
        let current = self.state;
        let ok = match (current, next) {
            (ProcessState::Ready, ProcessState::Running) => true,
            (ProcessState::Running, ProcessState::Exited(_)) => true,
            (ProcessState::Running, ProcessState::Faulted(_)) => true,
            _ => false,
        };
        if !ok {
            return Err(InvalidTransition { from: current, to: next });
        }
        self.state = next;
        Ok(())
    }

    pub fn id(&self) -> (i: u64)
        ensures
            i == self.spec_id(),
    {
        self.id
    }

    pub fn state(&self) -> (s: ProcessState)
        ensures
            s == self.spec_state(),
    {
        self.state
    }

    pub fn program(&self) -> (p: &'program Program)
        ensures
            *p == self.spec_program(),
    {
        self.program
    }

    /// Gives the process the stacks and context it runs in user mode with.
    pub fn attach_user_runtime(&mut self, runtime: UserRuntime)
        ensures
            final(self).spec_runtime() == Some(runtime),
            final(self).spec_state() == old(self).spec_state(),
            final(self).spec_id() == old(self).spec_id(),
            final(self).spec_program() == old(self).spec_program(),
    {
        self.runtime = Some(runtime);
    }

    /// The attached user runtime, if any.
    pub fn user_runtime(&self) -> (r: Option<UserRuntime>)
        ensures
            r == self.spec_runtime(),
    {
        self.runtime
    }

    /// Starts a ready process.
    pub fn start(&mut self) -> (r: Result<(), InvalidTransition>)
        ensures
            r is Ok <==> old(self).spec_state() == ProcessState::Ready,
            r is Ok ==> final(self).spec_state() == ProcessState::Running,
            r is Err ==> final(self).spec_state() == old(self).spec_state(),
            final(self).spec_id() == old(self).spec_id(),
            final(self).spec_program() == old(self).spec_program(),
            final(self).spec_runtime() == old(self).spec_runtime(),
    {
        self.transition(ProcessState::Running)
    }

    /// Records that a running process exited with `code`.
    pub fn finish_exit(&mut self, code: u8) -> (r: Result<(), InvalidTransition>)
        ensures
            r is Ok <==> old(self).spec_state() == ProcessState::Running,
            r is Ok ==> final(self).spec_state() == ProcessState::Exited(code as i32),
            r is Err ==> final(self).spec_state() == old(self).spec_state(),
            final(self).spec_id() == old(self).spec_id(),
            final(self).spec_program() == old(self).spec_program(),
            final(self).spec_runtime() == old(self).spec_runtime(),
    {
        self.transition(ProcessState::Exited(code as i32))
    }

    /// Records that a running process faulted as `info` says.
    pub fn finish_fault(&mut self, info: FaultInfo) -> (r: Result<(), InvalidTransition>)
        ensures
            r is Ok <==> old(self).spec_state() == ProcessState::Running,
            r is Ok ==> final(self).spec_state() == ProcessState::Faulted(info),
            r is Err ==> final(self).spec_state() == old(self).spec_state(),
            final(self).spec_id() == old(self).spec_id(),
            final(self).spec_program() == old(self).spec_program(),
            final(self).spec_runtime() == old(self).spec_runtime(),
    {
        self.transition(ProcessState::Faulted(info))
    }
}

/// Hands out process ids in increasing order, starting from a given one.
pub struct PidAllocator {
    next: u64,
}

impl PidAllocator {
    pub closed spec fn spec_next(&self) -> u64 {
        self.next
    }

    /// An allocator whose first id is `first`.
    pub fn new(first: u64) -> (a: PidAllocator)
        ensures
            a.spec_next() == first,
    {
        PidAllocator { next: first }
    }

    /// The next id, or `None` (changing nothing) once the next id after it
    /// would not fit in a `u64`.
    pub fn allocate(&mut self) -> (r: Option<u64>)
        ensures
            old(self).spec_next() < u64::MAX ==> r == Some(old(self).spec_next())
                && final(self).spec_next() == old(self).spec_next() + 1,
            old(self).spec_next() == u64::MAX ==> r is None && final(self).spec_next() == old(
                self,
            ).spec_next(),
    {
        let id = self.next;
        match self.next.checked_add(1) {
            Some(next) => {
                self.next = next;
                Some(id)
            },
            None => None,
        }
    }
}

/// Ids that one allocator hands out are strictly increasing: two
/// successive successful allocations give a smaller then a larger id, so no
/// id is handed out twice.
pub proof fn lemma_pids_increase(a0: PidAllocator, id1: u64, a1: PidAllocator, id2: u64, a2: PidAllocator)
    requires
        a0.spec_next() < u64::MAX,
        id1 == a0.spec_next(),
        a1.spec_next() == a0.spec_next() + 1,
        a1.spec_next() < u64::MAX,
        id2 == a1.spec_next(),
        a2.spec_next() == a1.spec_next() + 1,
    ensures
        id1 < id2,
        id2 < a2.spec_next(),
{
}

/// Name of a state for the log.
pub fn state_name(state: ProcessState) -> (s: &'static str)
    ensures
        s == match state {
            ProcessState::Ready => "Ready",
            ProcessState::Running => "Running",
            ProcessState::Exited(_) => "Exited",
            ProcessState::Faulted(_) => "Faulted",
        },
{
    match state {
        ProcessState::Ready => "Ready",
        ProcessState::Running => "Running",
        ProcessState::Exited(_) => "Exited",
        ProcessState::Faulted(_) => "Faulted",
    }
}

/// One line of the process model's log.
#[derive(Clone, Copy, PartialEq, Eq, Structural, Debug)]
pub enum ModelEvent {
    /// The process with this id is in this state.
    State(u64, ProcessState),
    /// A change was refused, and the process kept its exit code.
    Rejected { pid: u64, from: ProcessState, to: ProcessState, kept: i32 },
    /// The two processes run the same program.
    SharedProgram,
}

/// The log of the process model when its first process gets `pid`.
pub open spec fn model_log(pid: u64) -> Seq<ModelEvent> {
    let second = (pid + 1) as u64;
    seq![
        ModelEvent::State(pid, ProcessState::Ready),
        ModelEvent::State(pid, ProcessState::Running),
        ModelEvent::State(pid, ProcessState::Exited(0)),
        ModelEvent::Rejected {
            pid,
            from: ProcessState::Exited(0),
            to: ProcessState::Running,
            kept: 0,
        },
        ModelEvent::State(second, ProcessState::Ready),
        ModelEvent::SharedProgram,
        ModelEvent::State(second, ProcessState::Running),
        ModelEvent::State(second, ProcessState::Exited(0)),
    ]
}

/// Runs the process model: two processes of `program` with successive ids
/// from `first_pid` each go Ready, Running, Exited(0); the first then asks
/// to run again and is refused without losing its exit code. Returns the
/// log, or `None` when the allocator runs out of ids.
pub fn run_model(program: &Program, first_pid: u64) -> (r: Option<Vec<ModelEvent>>)
    ensures
        r is Some <==> first_pid < u64::MAX - 1,
        r matches Some(log) ==> log@ == model_log(first_pid),
{
    let mut log: Vec<ModelEvent> = Vec::new();
    let mut pids = PidAllocator::new(first_pid);
    let pid1 = match pids.allocate() {
        Some(p) => p,
        None => return None,
    };
    let mut first = Process::new(pid1, program);
    log.push(ModelEvent::State(first.id(), first.state()));
    if first.transition(ProcessState::Running).is_err() {
        return None;
    }
    log.push(ModelEvent::State(first.id(), first.state()));
    if first.transition(ProcessState::Exited(0)).is_err() {
        return None;
    }
    log.push(ModelEvent::State(first.id(), first.state()));
    let before = first.state();
    let error = match first.transition(ProcessState::Running) {
        Ok(()) => return None,
        Err(e) => e,
    };
    if first.state() != before {
        return None;
    }
    let kept = match first.state() {
        ProcessState::Exited(code) => code,
        _ => return None,
    };
    log.push(ModelEvent::Rejected { pid: first.id(), from: error.from, to: error.to, kept });
    let pid2 = match pids.allocate() {
        Some(p) => p,
        None => return None,
    };
    let mut second = Process::new(pid2, program);
    log.push(ModelEvent::State(second.id(), second.state()));
    log.push(ModelEvent::SharedProgram);
    if second.transition(ProcessState::Running).is_err() {
        return None;
    }
    log.push(ModelEvent::State(second.id(), second.state()));
    if second.transition(ProcessState::Exited(0)).is_err() {
        return None;
    }
    log.push(ModelEvent::State(second.id(), second.state()));
    if first.id() == second.id() {
        return None;
    }
    assert(log@ =~= model_log(first_pid));
    Some(log)
}

} // verus!
