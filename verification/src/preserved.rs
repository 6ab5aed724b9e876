//! Every transition keeps the scheduler's invariant.

use vstd::prelude::*;
use crate::lists::{
    count, lemma_drop_last, lemma_push_contains, lemma_push_no_duplicates, lemma_swap_remove,
    swap_remove,
};
use crate::model::SchedulerState;
use crate::stack::valid_stack_base;
use crate::task::SleepMode;

verus! {

/// A new scheduler is well formed, and the bootstrap task is running.
pub proof fn lemma_initial_wf(finish: usize)
    ensures
        SchedulerState::initial(finish).wf(),
        SchedulerState::initial(finish).running(),
        SchedulerState::initial(finish).current_id() == 0,
{
    let s = SchedulerState::initial(finish);
    assert(s.active[0] == 0);
    assert forall|id: usize| #[trigger] s.places(id) == count(id < s.tasks.len()) by {
        if s.active.contains(id) {
            let k = choose|k: int| 0 <= k < s.active.len() && s.active[k] == id;
            assert(id == 0);
        }
        if id == 0 {
            assert(s.active[0] == id);
        }
    }
}

/// An id that is in one of the lists is an index of the task table.
pub proof fn lemma_listed_is_known(s: SchedulerState, id: usize)
    requires
        s.wf(),
        s.active.contains(id) || s.asleep.contains(id) || s.dead.contains(id),
    ensures
        id < s.tasks.len(),
        s.places(id) == 1,
{
    assert(s.places(id) == count(id < s.tasks.len()));
}

/// Spawning keeps the invariant, given a valid fresh region where no dead
/// task is left to recycle.
pub proof fn lemma_spawned_wf(s: SchedulerState, entry: usize, fresh: Option<usize>)
    requires
        s.wf(),
        s.dead.len() == 0 ==> fresh is Some && valid_stack_base(fresh.unwrap() as int)
            && s.tasks.len() < usize::MAX,
    ensures
        s.spawned(entry, fresh).wf(),
        s.running() ==> s.spawned(entry, fresh).running(),
        valid_stack_base(s.next_stack_base(fresh) as int),
        0 < s.next_id() <= s.tasks.len(),
        s.dead.len() > 0 ==> s.next_id() < s.tasks.len(),
{
    let t = s.spawned(entry, fresh);
    if s.dead.len() > 0 {
        let id = s.dead.last();
        assert(s.dead.contains(id));
        lemma_listed_is_known(s, id);
        lemma_drop_last(s.dead);
        lemma_push_contains(s.active, id);
        lemma_push_no_duplicates(s.active, id);
        assert forall|x: usize| #[trigger] t.places(x) == count(x < t.tasks.len()) by {
            assert(s.places(x) == count(x < s.tasks.len()));
        }
    } else {
        let id = s.tasks.len() as usize;
        assert(s.places(id) == count(id < s.tasks.len()));
        lemma_push_contains(s.active, id);
        lemma_push_no_duplicates(s.active, id);
        assert forall|x: usize| #[trigger] t.places(x) == count(x < t.tasks.len()) by {
            assert(s.places(x) == count(x < s.tasks.len()));
        }
    }
}

/// A suspension of the running task keeps the invariant.
pub proof fn lemma_suspended_wf(s: SchedulerState, rsp: usize, mode: SleepMode, fd: i32)
    requires
        s.wf(),
        s.running(),
    ensures
        s.suspended(rsp, mode, fd).wf(),
{
    let t = s.suspended(rsp, mode, fd);
    let id = s.current_id();
    assert(s.active.contains(id));
    lemma_listed_is_known(s, id);
    if mode == SleepMode::Yield {
        assert forall|x: usize| #[trigger] t.places(x) == count(x < t.tasks.len()) by {
            assert(s.places(x) == count(x < s.tasks.len()));
        }
    } else {
        lemma_swap_remove(s.active, s.current as int);
        lemma_push_contains(s.asleep, id);
        lemma_push_no_duplicates(s.asleep, id);
        assert forall|x: usize| #[trigger] t.places(x) == count(x < t.tasks.len()) by {
            assert(s.places(x) == count(x < s.tasks.len()));
        }
    }
}

/// Waking the sleeper at a position keeps the invariant, and whether a task
/// is running.
pub proof fn lemma_woken_at_wf(s: SchedulerState, i: int)
    requires
        s.wf(),
        0 <= i < s.asleep.len(),
    ensures
        s.woken_at(i).wf(),
        s.running() ==> s.woken_at(i).running(),
{
    let t = s.woken_at(i);
    let id = s.asleep[i];
    assert(s.asleep.contains(id));
    lemma_listed_is_known(s, id);
    lemma_swap_remove(s.asleep, i);
    lemma_push_contains(s.active, id);
    lemma_push_no_duplicates(s.active, id);
    assert forall|x: usize| #[trigger] t.places(x) == count(x < t.tasks.len()) by {
        assert(s.places(x) == count(x < s.tasks.len()));
    }
}

/// A sweep over the registrations keeps the invariant, and whether a task is
/// running.
pub proof fn lemma_polled_from_wf(s: SchedulerState, revents: Seq<i16>, i: nat)
    requires
        s.wf(),
    ensures
        s.polled_from(revents, i).wf(),
        s.running() ==> s.polled_from(revents, i).running(),
    decreases s.asleep.len() - i,
{
    if i < s.asleep.len() && revents.len() == s.asleep.len() {
        if revents[i as int] != 0 {
            lemma_woken_at_wf(s, i as int);
            lemma_polled_from_wf(s.woken_at(i as int), swap_remove(revents, i as int), i);
        } else {
            lemma_polled_from_wf(s, revents, i + 1);
        }
    }
}

/// Reducing the cursor keeps the invariant and leaves a task running.
pub proof fn lemma_scheduled_wf(s: SchedulerState)
    requires
        s.wf(),
        s.active.len() > 0,
    ensures
        s.scheduled().wf(),
        s.scheduled().running(),
{
    let t = s.scheduled();
    assert forall|x: usize| #[trigger] t.places(x) == count(x < t.tasks.len()) by {
        assert(s.places(x) == count(x < s.tasks.len()));
    }
}

/// Finishing a running task other than the bootstrap task keeps the
/// invariant.
pub proof fn lemma_finished_wf(s: SchedulerState)
    requires
        s.wf(),
        s.running(),
        s.current_id() != 0,
    ensures
        s.finished().wf(),
{
    let t = s.finished();
    let id = s.current_id();
    assert(s.active.contains(id));
    lemma_listed_is_known(s, id);
    lemma_swap_remove(s.active, s.current as int);
    lemma_push_contains(s.dead, id);
    lemma_push_no_duplicates(s.dead, id);
    assert forall|x: usize| #[trigger] t.places(x) == count(x < t.tasks.len()) by {
        assert(s.places(x) == count(x < s.tasks.len()));
    }
}

/// A wake-up call keeps the invariant, and whether a task is running.
pub proof fn lemma_woken_wf(s: SchedulerState, id: usize)
    requires
        s.wf(),
    ensures
        s.woken(id).wf(),
        s.running() ==> s.woken(id).running(),
{
    if s.asleep.contains(id) {
        s.asleep.index_of_first_ensures(id);
        let i = s.asleep.index_of(id);
        assert(0 <= i < s.asleep.len());
        lemma_woken_at_wf(s, i);
    }
}

} // verus!
