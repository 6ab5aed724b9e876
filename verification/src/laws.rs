//! What holds of every scheduler, proved from the transitions.

use vstd::prelude::*;
use vstd::arithmetic::div_mod::{
    lemma_fundamental_div_mod, lemma_fundamental_div_mod_converse_mod, lemma_mod_bound,
    lemma_small_mod,
};
use crate::lists::{count, lemma_drop_last, lemma_push_contains, lemma_swap_remove};
use crate::model::{Event, SchedulerState};
use crate::preserved::{
    lemma_finished_wf, lemma_initial_wf, lemma_listed_is_known, lemma_polled_from_wf,
    lemma_scheduled_wf, lemma_spawned_wf, lemma_suspended_wf, lemma_woken_wf,
};
use crate::stack::valid_stack_base;
use crate::sweep::{lemma_index_of_contained, lemma_polled_from, returned_for};
use crate::task::SleepMode;

verus! {

/// Every event that can happen keeps the invariant.
pub proof fn lemma_step_wf(s: SchedulerState, event: Event)
    requires
        s.wf(),
        s.enabled(event),
    ensures
        s.step(event).wf(),
{
    match event {
        Event::Spawn { entry, fresh } => lemma_spawned_wf(s, entry, fresh),
        Event::Suspend { rsp, mode, fd } => lemma_suspended_wf(s, rsp, mode, fd),
        Event::Poll { revents } => lemma_polled_from_wf(s, revents, 0),
        Event::Schedule => lemma_scheduled_wf(s),
        Event::Finish => lemma_finished_wf(s),
        Event::Wake { id } => lemma_woken_wf(s, id),
    }
}

/// A run of events that can happen keeps the invariant.
pub proof fn lemma_run_wf(s: SchedulerState, events: Seq<Event>)
    requires
        s.wf(),
        s.admits(events),
    ensures
        s.run(events).wf(),
    decreases events.len(),
{
    if events.len() > 0 {
        lemma_run_wf(s, events.drop_last());
        lemma_step_wf(s.run(events.drop_last()), events.last());
    }
}

/// Every state that a new scheduler can get into satisfies the invariant.
pub proof fn lemma_reachable_wf(s: SchedulerState)
    requires
        s.reachable(),
    ensures
        s.wf(),
{
    let (finish, events) = choose|finish: usize, events: Seq<Event>|
        (#[trigger] SchedulerState::initial(finish).admits(events)) && SchedulerState::initial(
            finish,
        ).run(events) == s;
    lemma_initial_wf(finish);
    lemma_run_wf(SchedulerState::initial(finish), events);
}

/// In every reachable state each task id is in exactly one of the active,
/// asleep and dead lists, and no list holds anything else or anything twice.
pub proof fn lemma_exactly_one_list(s: SchedulerState, id: usize)
    requires
        s.reachable(),
    ensures
        id < s.tasks.len() ==> {
            ||| s.active.contains(id) && !s.asleep.contains(id) && !s.dead.contains(id)
            ||| !s.active.contains(id) && s.asleep.contains(id) && !s.dead.contains(id)
            ||| !s.active.contains(id) && !s.asleep.contains(id) && s.dead.contains(id)
        },
        id >= s.tasks.len() ==> !s.active.contains(id) && !s.asleep.contains(id)
            && !s.dead.contains(id),
        s.active.no_duplicates(),
        s.asleep.no_duplicates(),
        s.dead.no_duplicates(),
{
    lemma_reachable_wf(s);
    assert(s.places(id) == count(id < s.tasks.len()));
}

/// In every reachable state the bootstrap task, id 0, is not dead.
pub proof fn lemma_main_never_dead(s: SchedulerState)
    requires
        s.reachable(),
    ensures
        !s.dead.contains(0),
{
    lemma_reachable_wf(s);
}

/// The state after the running task yielded at `rsp` while no readiness
/// registration is pending: the suspension, then the choice of the next task.
pub open spec fn yielded(s: SchedulerState, rsp: usize) -> SchedulerState {
    s.suspended(rsp, SleepMode::Yield, 0).scheduled()
}

/// The state after one yield for each of `rsps`, each by the task that is
/// running by then.
pub open spec fn after_yields(s: SchedulerState, rsps: Seq<usize>) -> SchedulerState
    decreases rsps.len(),
{
    if rsps.len() == 0 {
        s
    } else {
        yielded(after_yields(s, rsps.drop_last()), rsps.last())
    }
}

/// The task that is resumed by the `j`-th of the yields `rsps`, counted
/// from 1.
pub open spec fn resumed(s: SchedulerState, rsps: Seq<usize>, j: int) -> usize {
    after_yields(s, rsps.take(j)).current_id()
}

/// The cursor after `j` steps round a list of `n` places, from place `c`.
pub open spec fn cursor_after(c: int, j: int, n: int) -> int {
    (c + j) % n
}

/// Within one round the cursor wraps at most once.
pub proof fn lemma_cursor_round(c: int, j: int, n: int)
    requires
        0 <= c < n,
        0 <= j <= n,
    ensures
        cursor_after(c, j, n) == if c + j < n {
            c + j
        } else {
            c + j - n
        },
{
    if c + j < n {
        lemma_small_mod((c + j) as nat, n as nat);
    } else {
        lemma_fundamental_div_mod_converse_mod(c + j, n, 1, c + j - n);
    }
}

/// One more step moves the cursor to the next place, wrapping at the end.
pub proof fn lemma_cursor_step(c: int, j: int, n: int)
    requires
        0 <= c,
        0 <= j,
        0 < n,
    ensures
        0 <= cursor_after(c, j, n) < n,
        cursor_after(c, j + 1, n) == (cursor_after(c, j, n) + 1) % n,
{
    let r = (c + j) % n;
    let q = (c + j) / n;
    lemma_fundamental_div_mod(c + j, n);
    lemma_mod_bound(c + j, n);
    if r + 1 < n {
        assert(c + j + 1 == q * n + (r + 1)) by (nonlinear_arith)
            requires
                c + j == n * q + r,
        ;
        lemma_fundamental_div_mod_converse_mod(c + j + 1, n, q, r + 1);
        lemma_small_mod((r + 1) as nat, n as nat);
    } else {
        assert(c + j + 1 == (q + 1) * n + 0) by (nonlinear_arith)
            requires
                c + j == n * q + r,
                r + 1 == n,
        ;
        lemma_fundamental_div_mod_converse_mod(c + j + 1, n, q + 1, 0);
        lemma_fundamental_div_mod_converse_mod(r + 1, n, 1, 0);
    }
}

/// While nothing sleeps, yields change neither the lists nor the need for a
/// readiness check, and each moves the cursor one place on, round the active
/// list.
pub proof fn lemma_yields_advance(s: SchedulerState, rsps: Seq<usize>)
    requires
        s.wf(),
        s.running(),
        s.asleep.len() == 0,
    ensures
        ({
            let t = after_yields(s, rsps);
            &&& t.wf()
            &&& t.running()
            &&& t.active == s.active
            &&& t.asleep == s.asleep
            &&& t.dead == s.dead
            &&& t.polls == s.polls
            &&& t.timeout() is None
            &&& t.current == cursor_after(
                s.current as int,
                rsps.len() as int,
                s.active.len() as int,
            )
        }),
    decreases rsps.len(),
{
    let n = s.active.len() as int;
    let c = s.current as int;
    if rsps.len() == 0 {
        lemma_small_mod(s.current, s.active.len());
    } else {
        let before = after_yields(s, rsps.drop_last());
        lemma_yields_advance(s, rsps.drop_last());
        let mid = before.suspended(rsps.last(), SleepMode::Yield, 0);
        lemma_suspended_wf(before, rsps.last(), SleepMode::Yield, 0);
        lemma_scheduled_wf(mid);
        lemma_cursor_step(c, rsps.len() - 1, n);
    }
}

/// Yielding is fair: while nothing sleeps, if each of the active tasks yields
/// once when it runs, then every one of them is resumed exactly once before
/// any is resumed a second time, and the round ends where it began.
pub proof fn lemma_round_robin(s: SchedulerState, rsps: Seq<usize>)
    requires
        s.wf(),
        s.running(),
        s.asleep.len() == 0,
        rsps.len() == s.active.len(),
    ensures
        forall|j: int| 1 <= j <= rsps.len() ==> s.active.contains(#[trigger] resumed(s, rsps, j)),
        forall|j: int, k: int|
            1 <= j < k <= rsps.len() ==> #[trigger] resumed(s, rsps, j) != #[trigger] resumed(
                s,
                rsps,
                k,
            ),
        forall|id: usize|
            s.active.contains(id) ==> exists|j: int|
                1 <= j <= rsps.len() && #[trigger] resumed(s, rsps, j) == id,
        after_yields(s, rsps).current == s.current,
        after_yields(s, rsps).active == s.active,
{
    let n = s.active.len() as int;
    let c = s.current as int;
    assert forall|j: int| 1 <= j <= n implies s.active.contains(#[trigger] resumed(s, rsps, j))
        && resumed(s, rsps, j) == s.active[cursor_after(c, j, n)] && 0 <= cursor_after(c, j, n)
        < n by {
        lemma_yields_advance(s, rsps.take(j));
        lemma_cursor_round(c, j, n);
    }
    assert forall|j: int, k: int| 1 <= j < k <= n implies #[trigger] resumed(s, rsps, j)
        != #[trigger] resumed(s, rsps, k) by {
        lemma_cursor_round(c, j, n);
        lemma_cursor_round(c, k, n);
        assert(cursor_after(c, j, n) != cursor_after(c, k, n));
    }
    assert forall|id: usize| s.active.contains(id) implies exists|j: int|
        1 <= j <= n && #[trigger] resumed(s, rsps, j) == id by {
        lemma_index_of_contained(s.active, id);
        let p = s.active.index_of(id);
        let j = if p > c {
            p - c
        } else {
            p - c + n
        };
        lemma_cursor_round(c, j, n);
        assert(resumed(s, rsps, j) == id);
    }
    assert(rsps.take(n) =~= rsps);
    lemma_yields_advance(s, rsps);
    lemma_cursor_round(c, n, n);
}

/// Whether `event` is one of the two that wake the sleeper `id`: a wake-up
/// call for it, or a readiness check that returns events for its
/// registration.
pub open spec fn wakes(s: SchedulerState, event: Event, id: usize) -> bool {
    match event {
        Event::Wake { id: target } => target == id,
        Event::Poll { revents } => returned_for(s, revents, id) != 0,
        _ => false,
    }
}

/// A sleeping task stays asleep, is not active and is not the task that
/// runs, through every event but the two that wake it.
pub proof fn lemma_sleeper_stays_asleep(s: SchedulerState, event: Event, id: usize)
    requires
        s.wf(),
        s.enabled(event),
        s.asleep.contains(id),
        !wakes(s, event, id),
    ensures
        s.step(event).asleep.contains(id),
        !s.step(event).active.contains(id),
        s.step(event).running() ==> s.step(event).current_id() != id,
{
    let t = s.step(event);
    lemma_step_wf(s, event);
    match event {
        Event::Spawn { entry, fresh } => {},
        Event::Suspend { rsp, mode, fd } => {
            lemma_push_contains(s.asleep, s.current_id());
        },
        Event::Poll { revents } => {
            lemma_polled_from(s, revents, 0);
        },
        Event::Schedule => {},
        Event::Finish => {},
        Event::Wake { id: target } => {
            if s.asleep.contains(target) {
                lemma_index_of_contained(s.asleep, target);
                lemma_swap_remove(s.asleep, s.asleep.index_of(target));
            }
        },
    }
    assert(t.asleep.contains(id));
    lemma_listed_is_known(t, id);
    if t.running() {
        assert(t.active.contains(t.current_id()));
    }
}

/// Whether none of `events`, happening in order from `s`, wakes the sleeper
/// `id`.
pub open spec fn undisturbed(s: SchedulerState, events: Seq<Event>, id: usize) -> bool
    decreases events.len(),
{
    events.len() > 0 ==> undisturbed(s, events.drop_last(), id) && !wakes(
        s.run(events.drop_last()),
        events.last(),
        id,
    )
}

/// A task that sleeps is still asleep, not active and not running after any
/// run of events, until a wake-up is called for it or a readiness check
/// returns events for its registration.
pub proof fn lemma_asleep_until_woken(s: SchedulerState, events: Seq<Event>, id: usize)
    requires
        s.wf(),
        s.admits(events),
        s.asleep.contains(id),
        undisturbed(s, events, id),
    ensures
        s.run(events).asleep.contains(id),
        !s.run(events).active.contains(id),
        s.run(events).running() ==> s.run(events).current_id() != id,
    decreases events.len(),
{
    if events.len() > 0 {
        let before = s.run(events.drop_last());
        lemma_asleep_until_woken(s, events.drop_last(), id);
        lemma_run_wf(s, events.drop_last());
        lemma_sleeper_stays_asleep(before, events.last(), id);
    } else {
        lemma_listed_is_known(s, id);
        if s.running() {
            assert(s.active.contains(s.current_id()));
        }
    }
}

/// Either of the two events that wake a sleeper makes it active.
pub proof fn lemma_woken_sleeper_is_active(s: SchedulerState, event: Event, id: usize)
    requires
        s.wf(),
        s.enabled(event),
        s.asleep.contains(id),
        wakes(s, event, id),
    ensures
        s.step(event).active.contains(id),
        !s.step(event).asleep.contains(id),
{
    lemma_step_wf(s, event);
    match event {
        Event::Poll { revents } => {
            lemma_polled_from(s, revents, 0);
            lemma_index_of_contained(s.asleep, id);
        },
        Event::Wake { id: target } => {
            lemma_push_contains(s.active, id);
        },
        _ => {},
    }
    lemma_listed_is_known(s.step(event), id);
}

/// The number of active tasks grows by exactly one with every spawn and
/// shrinks by exactly one with every finish.
pub proof fn lemma_alive_count(s: SchedulerState, entry: usize, fresh: Option<usize>)
    requires
        s.wf(),
    ensures
        s.spawned(entry, fresh).active.len() == s.active.len() + 1,
        s.running() ==> s.finished().active.len() == s.active.len() - 1,
{
}

/// While a dead task is left, a spawn gives the new task the id and the stack
/// region of the one that finished last, adds no entry to the task table, and
/// makes no use of a fresh region.
pub proof fn lemma_spawn_recycles(s: SchedulerState, entry: usize, fresh: Option<usize>)
    requires
        s.wf(),
        s.dead.len() > 0,
    ensures
        ({
            let t = s.spawned(entry, fresh);
            let id = s.dead.last();
            &&& t.active.last() == id
            &&& t.tasks.len() == s.tasks.len()
            &&& t.tasks[id as int].stack_base == s.tasks[id as int].stack_base
            &&& valid_stack_base(t.tasks[id as int].stack_base as int)
            &&& !t.dead.contains(id)
            &&& t == s.spawned(entry, None)
        }),
{
    let id = s.dead.last();
    assert(s.dead.contains(id));
    lemma_listed_is_known(s, id);
    lemma_spawned_wf(s, entry, fresh);
    lemma_drop_last(s.dead);
}

} // verus!
