//! A cooperative multitasking runtime core: the scheduler that multiplexes
//! many tasks onto one thread, as a state machine over plain values.
//!
//! The scheduler owns the task table and the active, asleep and dead lists.
//! Everything that touches the machine (allocating stack memory, writing a
//! frame into it, asking the operating system which descriptors are ready,
//! switching stacks) is left to the host: each operation here takes what the
//! machine reported and says what to do next.
//!
//! A dispatch runs in three calls. The suspension of the running task
//! ([`scheduler::CoroutineScheduler::switch_context`], or its return,
//! [`scheduler::CoroutineScheduler::finish_current`]) tells whether a
//! readiness check is due and how long it may block. The host makes the check
//! and hands the returned events to
//! [`scheduler::CoroutineScheduler::process_polls`]. Then
//! [`scheduler::CoroutineScheduler::schedule_next`] gives the resume point of
//! the task to switch to.
//!
//! - [`stack`]: stack regions and the frame a new task first resumes from.
//! - [`task`]: task table entries and readiness registrations.
//! - [`model`]: the scheduler's state, its invariant and its transitions, as
//!   mathematics.
//! - [`scheduler`]: the scheduler itself.
//! - [`coroutines`]: the operations that tasks call, as functions.
//! - [`lists`], [`preserved`], [`sweep`], [`laws`]: what is proved of the
//!   model.

pub mod coroutines;
pub mod laws;
pub mod lists;
pub mod model;
pub mod preserved;
pub mod scheduler;
pub mod stack;
pub mod sweep;
pub mod task;
