//! The records that the scheduler keeps: one per task, and one per pending
//! readiness registration.

use vstd::prelude::*;

verus! {

/// Why a task suspends.
#[derive(Clone, Copy, Debug, PartialEq, Eq, Structural)]
pub enum SleepMode {
    /// A voluntary yield: the task stays runnable.
    Yield,
    /// The task waits until a descriptor is readable.
    Read,
    /// The task waits until a descriptor is writable.
    Write,
}

/// The readiness that a sleeping task waits for.
#[derive(Clone, Copy, Debug, PartialEq, Eq, Structural)]
pub enum Interest {
    Read,
    Write,
}

/// One pending readiness registration: a descriptor and what is awaited on it.
#[derive(Clone, Copy, Debug, PartialEq, Eq, Structural)]
pub struct PollRequest {
    pub fd: i32,
    pub interest: Interest,
}

/// How long a readiness check may block.
#[derive(Clone, Copy, Debug, PartialEq, Eq, Structural)]
pub enum Timeout {
    /// Wait until some descriptor is ready: nothing else can run.
    Indefinite,
    /// Return at once: other tasks are runnable.
    Immediate,
}

/// Why the scheduler cannot go on.
#[derive(Clone, Copy, Debug, PartialEq, Eq, Structural)]
pub enum Fatal {
    /// No task is runnable.
    NoActiveCoroutines,
    /// The bootstrap task, id 0, tried to finish.
    MainFinished,
}

/// What a task table entry holds, as a mathematical value.
pub struct Task {
    /// Where to resume the task: the stack pointer saved when it last
    /// suspended, or that of its initial frame.
    pub resume_point: usize,
    /// The lowest address of the task's stack region; 0 for the bootstrap
    /// task, which runs on the thread's own stack.
    pub stack_base: usize,
    /// The address of the function that the task was started with; `None`
    /// for the bootstrap task.
    pub entry: Option<usize>,
}

/// The readiness that a suspension with `mode` registers for. A voluntary
/// yield registers nothing; it is given `Read` here only to be total.
pub open spec fn interest_of(mode: SleepMode) -> Interest {
    match mode {
        SleepMode::Write => Interest::Write,
        _ => Interest::Read,
    }
}

/// A task table entry.
#[derive(Clone, Copy, Debug)]
pub struct Coroutine {
    rsp: usize,
    stack_base: usize,
    f_ref: Option<usize>,
}

impl View for Coroutine {
    type V = Task;

    closed spec fn view(&self) -> Task {
        Task { resume_point: self.rsp, stack_base: self.stack_base, entry: self.f_ref }
    }
}

impl Coroutine {
    /// The entry of a task that owns no stack region and was started by no
    /// function: the bootstrap task.
    pub fn new() -> (c: Coroutine)
        ensures
            c@ == (Task { resume_point: 0, stack_base: 0, entry: None }),
    {
        Coroutine { rsp: 0, stack_base: 0, f_ref: None }
    }

    /// An entry with the given contents.
    pub(crate) fn with(rsp: usize, stack_base: usize, f_ref: Option<usize>) -> (c: Coroutine)
        ensures
            c@ == (Task { resume_point: rsp, stack_base, entry: f_ref }),
    {
        Coroutine { rsp, stack_base, f_ref }
    }

    /// The saved resume point. Only the scheduler reads it.
    pub(crate) fn rsp(&self) -> (rsp: usize)
        ensures
            rsp == self@.resume_point,
    {
        self.rsp
    }

    /// The lowest address of the task's stack region.
    pub fn stack_base(&self) -> (base: usize)
        ensures
            base == self@.stack_base,
    {
        self.stack_base
    }

    /// The address of the function that the task was started with.
    pub fn f_ref(&self) -> (entry: Option<usize>)
        ensures
            entry == self@.entry,
    {
        self.f_ref
    }
}

} // verus!
