//! The operations that tasks and their host call, one function each.
//!
//! A suspending operation records the suspension and returns the readiness
//! check that is due, if any. The host makes that check, hands what it
//! returned to `CoroutineScheduler::process_polls`, and resumes the task that
//! `CoroutineScheduler::schedule_next` picks.

use vstd::prelude::*;
use crate::scheduler::{base_of, CoroutineScheduler};
use crate::stack::{frame_words, InitialFrame, StackRegion};
use crate::task::{Coroutine, SleepMode, Timeout};

verus! {

/// Registers a new task that starts at `entry` with `arg`; see
/// `CoroutineScheduler::spawn`. The number of active tasks grows by one, and
/// the region of the dead task that finished last is reused when there is one.
pub fn spawn(
    scheduler: &mut CoroutineScheduler,
    entry: usize,
    arg: usize,
    fresh: Option<StackRegion>,
) -> (frame: InitialFrame)
    requires
        old(scheduler)@.wf(),
        old(scheduler)@.dead.len() == 0 ==> fresh is Some && old(scheduler)@.tasks.len()
            < usize::MAX,
    ensures
        final(scheduler)@ == old(scheduler)@.spawned(entry, base_of(fresh)),
        final(scheduler)@.wf(),
        final(scheduler)@.active.len() == old(scheduler)@.active.len() + 1,
        old(scheduler)@.running() ==> final(scheduler)@.running(),
        frame.stack_base() == old(scheduler)@.next_stack_base(base_of(fresh)),
        frame.contents() == frame_words(old(scheduler)@.finish, entry, arg),
{
    scheduler.spawn(entry, arg, fresh)
}

/// Registers a new task; another name for `spawn`.
pub fn go(
    scheduler: &mut CoroutineScheduler,
    entry: usize,
    arg: usize,
    fresh: Option<StackRegion>,
) -> (frame: InitialFrame)
    requires
        old(scheduler)@.wf(),
        old(scheduler)@.dead.len() == 0 ==> fresh is Some && old(scheduler)@.tasks.len()
            < usize::MAX,
    ensures
        final(scheduler)@ == old(scheduler)@.spawned(entry, base_of(fresh)),
        final(scheduler)@.wf(),
        final(scheduler)@.active.len() == old(scheduler)@.active.len() + 1,
        old(scheduler)@.running() ==> final(scheduler)@.running(),
        frame.stack_base() == old(scheduler)@.next_stack_base(base_of(fresh)),
        frame.contents() == frame_words(old(scheduler)@.finish, entry, arg),
{
    scheduler.spawn(entry, arg, fresh)
}

/// The running task, suspended at `rsp`, gives up its turn and stays
/// runnable: the cursor moves on and no list changes.
pub fn yield_coroutine(scheduler: &mut CoroutineScheduler, rsp: usize) -> (plan: Option<Timeout>)
    requires
        old(scheduler)@.wf(),
        old(scheduler)@.running(),
    ensures
        final(scheduler)@ == old(scheduler)@.suspended(rsp, SleepMode::Yield, 0),
        final(scheduler)@.wf(),
        final(scheduler)@.active == old(scheduler)@.active,
        final(scheduler)@.current == old(scheduler)@.current + 1,
        plan == final(scheduler)@.timeout(),
{
    scheduler.switch_context(rsp, SleepMode::Yield, 0)
}

/// The running task, suspended at `rsp`, sleeps until `fd` is readable. A
/// readiness check is always due afterwards.
pub fn sleep_read(scheduler: &mut CoroutineScheduler, rsp: usize, fd: i32) -> (plan: Option<
    Timeout,
>)
    requires
        old(scheduler)@.wf(),
        old(scheduler)@.running(),
    ensures
        final(scheduler)@ == old(scheduler)@.suspended(rsp, SleepMode::Read, fd),
        final(scheduler)@.wf(),
        plan == final(scheduler)@.timeout(),
        plan is Some,
{
    scheduler.switch_context(rsp, SleepMode::Read, fd)
}

/// The running task, suspended at `rsp`, sleeps until `fd` is writable. A
/// readiness check is always due afterwards.
pub fn sleep_write(scheduler: &mut CoroutineScheduler, rsp: usize, fd: i32) -> (plan: Option<
    Timeout,
>)
    requires
        old(scheduler)@.wf(),
        old(scheduler)@.running(),
    ensures
        final(scheduler)@ == old(scheduler)@.suspended(rsp, SleepMode::Write, fd),
        final(scheduler)@.wf(),
        plan == final(scheduler)@.timeout(),
        plan is Some,
{
    scheduler.switch_context(rsp, SleepMode::Write, fd)
}

/// The id of the running task.
pub fn id(scheduler: &CoroutineScheduler) -> (id: usize)
    requires
        scheduler@.running(),
    ensures
        id == scheduler@.current_id(),
{
    scheduler.id()
}

/// The number of active tasks, the bootstrap task included.
pub fn alive(scheduler: &CoroutineScheduler) -> (count: usize)
    ensures
        count == scheduler@.active.len(),
{
    scheduler.alive()
}

/// Makes the sleeping task `id` runnable again; does nothing if `id` is not
/// asleep.
pub fn wake_up(scheduler: &mut CoroutineScheduler, id: usize)
    requires
        old(scheduler)@.wf(),
    ensures
        final(scheduler)@ == old(scheduler)@.woken(id),
        final(scheduler)@.wf(),
        old(scheduler)@.running() ==> final(scheduler)@.running(),
{
    scheduler.wake_up(id)
}

/// The task table entry of `id`, for diagnostics.
pub fn handle(scheduler: &CoroutineScheduler, id: usize) -> (entry: &Coroutine)
    requires
        id < scheduler@.tasks.len(),
    ensures
        entry@ == scheduler@.tasks[id as int],
{
    scheduler.handle(id)
}

} // verus!
