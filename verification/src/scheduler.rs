//! The scheduler: the task table, the three id lists, the readiness
//! registrations and the run cursor, with one operation per event.

use vstd::prelude::*;
use crate::lists::swap_remove;
use crate::model::SchedulerState;
use crate::preserved::{
    lemma_finished_wf, lemma_initial_wf, lemma_listed_is_known, lemma_scheduled_wf,
    lemma_spawned_wf, lemma_suspended_wf, lemma_woken_at_wf, lemma_woken_wf,
};
use crate::stack::{frame_words, InitialFrame, StackRegion};
use crate::sweep::{lemma_index_of_contained, lemma_polled_from, registration_of, returned_for};
use crate::task::{Coroutine, Fatal, Interest, PollRequest, SleepMode, Timeout};

verus! {

/// The base address of a region that may be absent.
pub open spec fn base_of(fresh: Option<StackRegion>) -> Option<usize> {
    match fresh {
        Some(region) => Some(region@),
        None => None,
    }
}

/// A cooperative scheduler for the tasks of one thread.
pub struct CoroutineScheduler {
    current: usize,
    active: Vec<usize>,
    dead: Vec<usize>,
    coroutines: Vec<Coroutine>,
    asleep: Vec<usize>,
    polls: Vec<PollRequest>,
    finish: usize,
}

impl View for CoroutineScheduler {
    type V = SchedulerState;

    closed spec fn view(&self) -> SchedulerState {
        SchedulerState {
            current: self.current as nat,
            active: self.active@,
            asleep: self.asleep@,
            dead: self.dead@,
            polls: self.polls@,
            tasks: self.coroutines@.map_values(|c: Coroutine| c@),
            finish: self.finish,
        }
    }
}

impl CoroutineScheduler {
    /// A scheduler that holds the bootstrap task, id 0, alone and running.
    /// `finish` is the address of the completion handler that a task's entry
    /// function returns into.
    pub fn new(finish: usize) -> (scheduler: CoroutineScheduler)
        ensures
            scheduler@ == SchedulerState::initial(finish),
            scheduler@.wf(),
            scheduler@.running(),
    {
        let mut coroutines: Vec<Coroutine> = Vec::new();
        coroutines.push(Coroutine::new());
        let mut active: Vec<usize> = Vec::new();
        active.push(0);
        let scheduler = CoroutineScheduler {
            current: 0,
            active,
            dead: Vec::new(),
            coroutines,
            asleep: Vec::new(),
            polls: Vec::new(),
            finish,
        };
        proof {
            lemma_initial_wf(finish);
            let init = SchedulerState::initial(finish);
            assert(scheduler@.active =~= init.active);
            assert(scheduler@.asleep =~= init.asleep);
            assert(scheduler@.dead =~= init.dead);
            assert(scheduler@.polls =~= init.polls);
            assert(scheduler@.tasks =~= init.tasks);
        }
        scheduler
    }

    /// Whether a readiness check is due now, and how long it may block.
    pub fn poll_timeout(&self) -> (plan: Option<Timeout>)
        ensures
            plan == self@.timeout(),
    {
        if self.polls.len() == 0 {
            None
        } else if self.active.len() == 0 {
            Some(Timeout::Indefinite)
        } else {
            Some(Timeout::Immediate)
        }
    }

    /// Records that the running task suspended with its stack pointer at
    /// `rsp`. On a voluntary yield the cursor moves to the next position. On
    /// a wait the task moves from `active` to `asleep` and a registration for
    /// `fd` is added. Returns the readiness check to make before the next
    /// task is scheduled, if any.
    pub fn switch_context(&mut self, rsp: usize, mode: SleepMode, fd: i32) -> (plan: Option<
        Timeout,
    >)
        requires
            old(self)@.wf(),
            old(self)@.running(),
        ensures
            final(self)@ == old(self)@.suspended(rsp, mode, fd),
            final(self)@.wf(),
            plan == final(self)@.timeout(),
    {
        let id: usize = self.active[self.current];
        proof {
            assert(self@.active.contains(id));
            lemma_listed_is_known(self@, id);
            lemma_suspended_wf(self@, rsp, mode, fd);
        }
        let entry: Coroutine = self.coroutines[id];
        self.coroutines.set(id, Coroutine::with(rsp, entry.stack_base(), entry.f_ref()));
        match mode {
            SleepMode::Yield => {
                assert(self.current < self.active.len() <= usize::MAX);
                self.current = self.current + 1;
            },
            SleepMode::Read => {
                self.asleep.push(id);
                self.polls.push(PollRequest { fd, interest: Interest::Read });
                self.active.swap_remove(self.current);
            },
            SleepMode::Write => {
                self.asleep.push(id);
                self.polls.push(PollRequest { fd, interest: Interest::Write });
                self.active.swap_remove(self.current);
            },
        }
        proof {
            let want = old(self)@.suspended(rsp, mode, fd);
            assert(self@.tasks =~= want.tasks);
            assert(self@.active =~= want.active);
            assert(self@.asleep =~= want.asleep);
            assert(self@.polls =~= want.polls);
        }
        self.poll_timeout()
    }

    /// Whether the next spawn needs a fresh stack region: no dead task is
    /// left whose region could be reused.
    pub fn needs_stack(&self) -> (needed: bool)
        ensures
            needed == (self@.dead.len() == 0),
    {
        self.dead.len() == 0
    }

    /// Registers a task that starts at `entry` with `arg`, as the last of
    /// `active`. It takes the id and the stack region of the dead task that
    /// finished last; where none is dead it takes the next free id and the
    /// region `fresh`. Returns the frame to write into the task's region
    /// before it first runs.
    pub fn spawn(&mut self, entry: usize, arg: usize, fresh: Option<StackRegion>) -> (frame:
        InitialFrame)
        requires
            old(self)@.wf(),
            old(self)@.dead.len() == 0 ==> fresh is Some && old(self)@.tasks.len() < usize::MAX,
        ensures
            final(self)@ == old(self)@.spawned(entry, base_of(fresh)),
            final(self)@.wf(),
            final(self)@.active.len() == old(self)@.active.len() + 1,
            old(self)@.running() ==> final(self)@.running(),
            frame.stack_base() == old(self)@.next_stack_base(base_of(fresh)),
            frame.contents() == frame_words(old(self)@.finish, entry, arg),
            old(self)@.dead.len() > 0 ==> frame.stack_base() == old(self)@.tasks[old(
                self,
            )@.dead.last() as int].stack_base,
    {
        let frame: InitialFrame;
        let id: usize;
        match self.dead.pop() {
            Some(recycled) => {
                id = recycled;
                proof {
                    lemma_spawned_wf(old(self)@, entry, base_of(fresh));
                    assert(id == old(self)@.dead.last());
                    assert(old(self)@.tasks[id as int] == self.coroutines@[id as int]@);
                }
                let base: usize = self.coroutines[id].stack_base();
                frame = InitialFrame::new(base, self.finish, entry, arg);
                self.coroutines.set(id, Coroutine::with(frame.rsp(), base, Some(entry)));
            },
            None => {
                let base: usize = fresh.unwrap().base();
                proof {
                    lemma_spawned_wf(old(self)@, entry, base_of(fresh));
                }
                frame = InitialFrame::new(base, self.finish, entry, arg);
                self.coroutines.push(Coroutine::with(frame.rsp(), base, Some(entry)));
                id = self.coroutines.len() - 1;
            },
        }
        self.active.push(id);
        proof {
            let want = old(self)@.spawned(entry, base_of(fresh));
            assert(self@.tasks =~= want.tasks);
            assert(self@.dead =~= want.dead);
            assert(self@.active =~= want.active);
        }
        frame
    }

    /// Records that the running task's entry function returned: the task
    /// moves from `active` to `dead`. The bootstrap task cannot finish: for
    /// it nothing changes and the call fails. Returns the readiness check to
    /// make before the next task is scheduled, if any.
    pub fn finish_current(&mut self) -> (result: Result<Option<Timeout>, Fatal>)
        requires
            old(self)@.wf(),
            old(self)@.running(),
        ensures
            final(self)@.wf(),
            match result {
                Ok(plan) => {
                    &&& old(self)@.current_id() != 0
                    &&& final(self)@ == old(self)@.finished()
                    &&& final(self)@.active.len() == old(self)@.active.len() - 1
                    &&& plan == final(self)@.timeout()
                },
                Err(fatal) => {
                    &&& old(self)@.current_id() == 0
                    &&& final(self)@ == old(self)@
                    &&& fatal == Fatal::MainFinished
                },
            },
    {
        let id: usize = self.active[self.current];
        if id == 0 {
            return Err(Fatal::MainFinished);
        }
        proof {
            lemma_finished_wf(self@);
        }
        self.dead.push(id);
        self.active.swap_remove(self.current);
        proof {
            let want = old(self)@.finished();
            assert(self@.active =~= want.active);
            assert(self@.dead =~= want.dead);
        }
        Ok(self.poll_timeout())
    }

    /// Picks the task to resume: reduces the cursor modulo the number of
    /// active tasks and returns the resume point of the task it designates.
    /// Fails, changing nothing, when no task is active.
    pub fn schedule_next(&mut self) -> (result: Result<usize, Fatal>)
        requires
            old(self)@.wf(),
        ensures
            final(self)@.wf(),
            match result {
                Ok(rsp) => {
                    &&& old(self)@.active.len() > 0
                    &&& final(self)@ == old(self)@.scheduled()
                    &&& final(self)@.running()
                    &&& rsp == final(self)@.tasks[final(self)@.current_id() as int].resume_point
                },
                Err(fatal) => {
                    &&& old(self)@.active.len() == 0
                    &&& final(self)@ == old(self)@
                    &&& fatal == Fatal::NoActiveCoroutines
                },
            },
    {
        if self.active.len() == 0 {
            return Err(Fatal::NoActiveCoroutines);
        }
        proof {
            lemma_scheduled_wf(self@);
        }
        self.current = self.current % self.active.len();
        let id: usize = self.active[self.current];
        proof {
            assert(self@.active.contains(id));
            lemma_listed_is_known(self@, id);
        }
        Ok(self.coroutines[id].rsp())
    }

    /// Takes in what a readiness check returned: `revents[k]` for the
    /// registration at position `k`. Every sleeper whose returned events are
    /// not zero moves, with its registration, from `asleep` to `active`.
    pub fn process_polls(&mut self, revents: Vec<i16>)
        requires
            old(self)@.wf(),
            revents@.len() == old(self)@.polls.len(),
        ensures
            final(self)@ == old(self)@.polled(revents@),
            final(self)@.wf(),
            old(self)@.running() ==> final(self)@.running(),
            forall|id: usize| #[trigger]
                final(self)@.asleep.contains(id) <==> old(self)@.asleep.contains(id)
                    && returned_for(old(self)@, revents@, id) == 0,
            forall|id: usize| #[trigger]
                final(self)@.active.contains(id) <==> old(self)@.active.contains(id) || (old(
                    self,
                )@.asleep.contains(id) && returned_for(old(self)@, revents@, id) != 0),
            forall|id: usize|
                final(self)@.asleep.contains(id) ==> #[trigger] registration_of(final(self)@, id)
                    == registration_of(old(self)@, id),
            final(self)@.current == old(self)@.current,
            final(self)@.dead == old(self)@.dead,
            final(self)@.tasks == old(self)@.tasks,
    {
        proof {
            lemma_polled_from(self@, revents@, 0);
            assert forall|id: usize| old(self)@.asleep.contains(id) implies old(
                self,
            )@.asleep.index_of(id) >= 0 by {
                lemma_index_of_contained(old(self)@.asleep, id);
            }
        }
        let mut revents = revents;
        let ghost goal = self@.polled(revents@);
        let mut i: usize = 0;
        while i < self.polls.len()
            invariant
                self@.wf(),
                old(self)@.running() ==> self@.running(),
                revents@.len() == self@.polls.len(),
                self@.polled_from(revents@, i as nat) == goal,
            decreases self@.polls.len() - i,
        {
            if revents[i] != 0 {
                let ghost before = self@;
                let ghost events = revents@;
                proof {
                    lemma_woken_at_wf(before, i as int);
                }
                let id: usize = self.asleep[i];
                self.polls.swap_remove(i);
                self.asleep.swap_remove(i);
                revents.swap_remove(i);
                self.active.push(id);
                proof {
                    let want = before.woken_at(i as int);
                    assert(self@.active =~= want.active);
                    assert(self@.asleep =~= want.asleep);
                    assert(self@.polls =~= want.polls);
                    assert(self@ == want);
                    assert(revents@ =~= swap_remove(events, i as int));
                }
            } else {
                i = i + 1;
            }
        }
    }

    /// Makes the sleeping task `id` runnable again, as the last of `active`,
    /// and drops its registration. Does nothing if `id` is not asleep.
    pub fn wake_up(&mut self, id: usize)
        requires
            old(self)@.wf(),
        ensures
            final(self)@ == old(self)@.woken(id),
            final(self)@.wf(),
            old(self)@.running() ==> final(self)@.running(),
    {
        let mut i: usize = 0;
        while i < self.asleep.len()
            invariant
                self@ == old(self)@,
                self@.wf(),
                i <= self@.asleep.len(),
                forall|k: int| 0 <= k < i ==> self@.asleep[k] != id,
            decreases self@.asleep.len() - i,
        {
            if self.asleep[i] == id {
                proof {
                    self@.asleep.index_of_first_ensures(id);
                    assert(self@.asleep.contains(id));
                    assert(self@.asleep.index_of(id) == i);
                    lemma_woken_wf(self@, id);
                }
                self.asleep.swap_remove(i);
                self.polls.swap_remove(i);
                self.active.push(id);
                proof {
                    let want = old(self)@.woken(id);
                    assert(self@.active =~= want.active);
                    assert(self@.asleep =~= want.asleep);
                    assert(self@.polls =~= want.polls);
                }
                return ;
            }
            i = i + 1;
        }
        assert(!self@.asleep.contains(id));
    }

    /// Whether the cursor designates a task.
    pub fn is_running(&self) -> (running: bool)
        ensures
            running == self@.running(),
    {
        self.current < self.active.len()
    }

    /// The id of the running task.
    pub fn id(&self) -> (id: usize)
        requires
            self@.running(),
        ensures
            id == self@.current_id(),
    {
        self.active[self.current]
    }

    /// The number of active tasks, the bootstrap task included.
    pub fn alive(&self) -> (count: usize)
        ensures
            count == self@.active.len(),
    {
        self.active.len()
    }

    /// The number of entries of the task table.
    pub fn task_count(&self) -> (count: usize)
        ensures
            count == self@.tasks.len(),
    {
        self.coroutines.len()
    }

    /// The task table entry of `id`.
    pub fn handle(&self, id: usize) -> (entry: &Coroutine)
        requires
            id < self@.tasks.len(),
        ensures
            entry@ == self@.tasks[id as int],
    {
        &self.coroutines[id]
    }

    /// The active list.
    pub fn active(&self) -> (list: &Vec<usize>)
        ensures
            list@ == self@.active,
    {
        &self.active
    }

    /// The asleep list.
    pub fn asleep(&self) -> (list: &Vec<usize>)
        ensures
            list@ == self@.asleep,
    {
        &self.asleep
    }

    /// The dead list.
    pub fn dead(&self) -> (list: &Vec<usize>)
        ensures
            list@ == self@.dead,
    {
        &self.dead
    }

    /// The pending readiness registrations, aligned with the asleep list.
    pub fn polls(&self) -> (list: &Vec<PollRequest>)
        ensures
            list@ == self@.polls,
    {
        &self.polls
    }
}

} // verus!
