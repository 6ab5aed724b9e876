//! The scheduler as a mathematical state machine: its state, the invariant
//! that every reachable state satisfies, and one transition per operation.

use vstd::prelude::*;
use crate::lists::{count, swap_remove};
use crate::stack::{initial_rsp, valid_stack_base};
use crate::task::{interest_of, PollRequest, SleepMode, Task, Timeout};

verus! {

/// The state of a scheduler.
pub struct SchedulerState {
    /// The run cursor: a position in `active`.
    pub current: nat,
    /// The runnable tasks, visited round-robin by position.
    pub active: Seq<usize>,
    /// The tasks that wait for readiness.
    pub asleep: Seq<usize>,
    /// The finished tasks, whose ids and stack regions the next spawns reuse.
    pub dead: Seq<usize>,
    /// The readiness registrations; the one at position `k` belongs to the
    /// task at position `k` of `asleep`.
    pub polls: Seq<PollRequest>,
    /// The task table, indexed by task id.
    pub tasks: Seq<Task>,
    /// The address of the completion handler that every initial frame
    /// returns into.
    pub finish: usize,
}

impl SchedulerState {
    /// The state of a new scheduler: the bootstrap task alone, and running.
    pub open spec fn initial(finish: usize) -> SchedulerState {
        SchedulerState {
            current: 0,
            active: seq![0usize],
            asleep: Seq::empty(),
            dead: Seq::empty(),
            polls: Seq::empty(),
            tasks: seq![Task { resume_point: 0, stack_base: 0, entry: None }],
            finish,
        }
    }

    /// In how many of the three lists `id` occurs.
    pub open spec fn places(self, id: usize) -> nat {
        count(self.active.contains(id)) + count(self.asleep.contains(id)) + count(
            self.dead.contains(id),
        )
    }

    /// The invariant: every id of the task table is in exactly one of the
    /// three lists, once, and no other id is in any; the bootstrap task is
    /// not dead; registrations and sleepers are aligned; the cursor does not
    /// pass the end of the active list; every task but the bootstrap task
    /// owns a valid stack region.
    pub open spec fn wf(self) -> bool {
        &&& self.tasks.len() >= 1
        &&& self.active.no_duplicates()
        &&& self.asleep.no_duplicates()
        &&& self.dead.no_duplicates()
        &&& forall|id: usize| #[trigger] self.places(id) == count(id < self.tasks.len())
        &&& !self.dead.contains(0)
        &&& self.polls.len() == self.asleep.len()
        &&& self.current <= self.active.len()
        &&& forall|id: int|
            1 <= id < self.tasks.len() ==> valid_stack_base(
                (#[trigger] self.tasks[id]).stack_base as int,
            )
    }

    /// Whether the cursor designates a task: the state between a resume and
    /// the next suspension.
    pub open spec fn running(self) -> bool {
        self.current < self.active.len()
    }

    /// The id of the running task.
    pub open spec fn current_id(self) -> usize
        recommends
            self.running(),
    {
        self.active[self.current as int]
    }

    /// The id that the next spawn gives out: the last dead one, or else the
    /// next free index of the task table.
    pub open spec fn next_id(self) -> int {
        if self.dead.len() > 0 {
            self.dead.last() as int
        } else {
            self.tasks.len() as int
        }
    }

    /// The base of the stack region that the next spawn uses: that of the
    /// dead task whose id it reuses, or else the fresh region's.
    pub open spec fn next_stack_base(self, fresh: Option<usize>) -> usize {
        if self.dead.len() > 0 {
            self.tasks[self.dead.last() as int].stack_base
        } else {
            fresh.unwrap()
        }
    }

    /// The state after a task that starts at `entry` was spawned; `fresh` is
    /// the base of a newly allocated stack region, used only when no dead
    /// task is left to recycle.
    pub open spec fn spawned(self, entry: usize, fresh: Option<usize>) -> SchedulerState {
        let base = self.next_stack_base(fresh);
        let task = Task {
            resume_point: initial_rsp(base as int) as usize,
            stack_base: base,
            entry: Some(entry),
        };
        if self.dead.len() > 0 {
            let id = self.dead.last();
            SchedulerState {
                dead: self.dead.drop_last(),
                tasks: self.tasks.update(id as int, task),
                active: self.active.push(id),
                ..self
            }
        } else {
            SchedulerState {
                tasks: self.tasks.push(task),
                active: self.active.push(self.tasks.len() as usize),
                ..self
            }
        }
    }

    /// The state after the running task suspended at `rsp`: on a voluntary
    /// yield the cursor moves on; on a wait the task leaves `active` by
    /// swap-removal and joins `asleep`, with a registration for `fd`.
    pub open spec fn suspended(self, rsp: usize, mode: SleepMode, fd: i32) -> SchedulerState {
        let id = self.current_id();
        let tasks = self.tasks.update(
            id as int,
            Task { resume_point: rsp, ..self.tasks[id as int] },
        );
        if mode == SleepMode::Yield {
            SchedulerState { current: self.current + 1, tasks, ..self }
        } else {
            SchedulerState {
                active: swap_remove(self.active, self.current as int),
                asleep: self.asleep.push(id),
                polls: self.polls.push(PollRequest { fd, interest: interest_of(mode) }),
                tasks,
                ..self
            }
        }
    }

    /// Whether a readiness check is due, and how long it may block: forever
    /// when nothing is runnable, not at all otherwise.
    pub open spec fn timeout(self) -> Option<Timeout> {
        if self.polls.len() == 0 {
            None
        } else if self.active.len() == 0 {
            Some(Timeout::Indefinite)
        } else {
            Some(Timeout::Immediate)
        }
    }

    /// The state after the sleeper at position `i` woke: it and its
    /// registration leave by swap-removal, and it joins `active` at the end.
    pub open spec fn woken_at(self, i: int) -> SchedulerState
        recommends
            0 <= i < self.asleep.len(),
    {
        SchedulerState {
            active: self.active.push(self.asleep[i]),
            asleep: swap_remove(self.asleep, i),
            polls: swap_remove(self.polls, i),
            ..self
        }
    }

    /// The state after a sweep over the registrations from position `i` on,
    /// where `revents[k]` is what the readiness check returned for the
    /// registration at position `k`: a sleeper whose returned events are not
    /// zero wakes, and the one swapped into its place is looked at next.
    pub open spec fn polled_from(self, revents: Seq<i16>, i: nat) -> SchedulerState
        decreases self.asleep.len() - i,
    {
        if i < self.asleep.len() && revents.len() == self.asleep.len() {
            if revents[i as int] != 0 {
                self.woken_at(i as int).polled_from(swap_remove(revents, i as int), i)
            } else {
                self.polled_from(revents, i + 1)
            }
        } else {
            self
        }
    }

    /// The state after a readiness check returned `revents`.
    pub open spec fn polled(self, revents: Seq<i16>) -> SchedulerState {
        self.polled_from(revents, 0)
    }

    /// The state after the cursor was reduced modulo the length of `active`.
    pub open spec fn scheduled(self) -> SchedulerState
        recommends
            self.active.len() > 0,
    {
        SchedulerState { current: (self.current % self.active.len()) as nat, ..self }
    }

    /// The state after the running task finished: it leaves `active` by
    /// swap-removal and joins `dead`.
    pub open spec fn finished(self) -> SchedulerState
        recommends
            self.running(),
    {
        SchedulerState {
            active: swap_remove(self.active, self.current as int),
            dead: self.dead.push(self.current_id()),
            ..self
        }
    }

    /// The state after a wake-up call for `id`: unchanged unless `id` is
    /// asleep.
    pub open spec fn woken(self, id: usize) -> SchedulerState {
        if self.asleep.contains(id) {
            self.woken_at(self.asleep.index_of(id))
        } else {
            self
        }
    }

    /// Whether `event` can happen in this state: what the operation behind
    /// it asks of its caller, or the case in which it succeeds.
    pub open spec fn enabled(self, event: Event) -> bool {
        match event {
            Event::Spawn { entry, fresh } => self.dead.len() == 0 ==> fresh is Some
                && valid_stack_base(fresh.unwrap() as int) && self.tasks.len() < usize::MAX,
            Event::Suspend { rsp, mode, fd } => self.running(),
            Event::Poll { revents } => revents.len() == self.polls.len(),
            Event::Schedule => self.active.len() > 0,
            Event::Finish => self.running() && self.current_id() != 0,
            Event::Wake { id } => true,
        }
    }

    /// The state after `event`.
    pub open spec fn step(self, event: Event) -> SchedulerState {
        match event {
            Event::Spawn { entry, fresh } => self.spawned(entry, fresh),
            Event::Suspend { rsp, mode, fd } => self.suspended(rsp, mode, fd),
            Event::Poll { revents } => self.polled(revents),
            Event::Schedule => self.scheduled(),
            Event::Finish => self.finished(),
            Event::Wake { id } => self.woken(id),
        }
    }

    /// The state reached from this one through `events`, in order.
    pub open spec fn run(self, events: Seq<Event>) -> SchedulerState
        decreases events.len(),
    {
        if events.len() == 0 {
            self
        } else {
            self.run(events.drop_last()).step(events.last())
        }
    }

    /// Whether each of `events` can happen in the state that the ones before
    /// it lead to from this one.
    pub open spec fn admits(self, events: Seq<Event>) -> bool
        decreases events.len(),
    {
        events.len() > 0 ==> self.admits(events.drop_last()) && self.run(
            events.drop_last(),
        ).enabled(events.last())
    }

    /// Whether a new scheduler can get into this state.
    pub open spec fn reachable(self) -> bool {
        exists|finish: usize, events: Seq<Event>|
            (#[trigger] SchedulerState::initial(finish).admits(events)) && SchedulerState::initial(
                finish,
            ).run(events) == self
    }
}

/// What can happen to a scheduler: one event per operation.
pub enum Event {
    /// A task was spawned; `fresh` is the base of a newly allocated region.
    Spawn { entry: usize, fresh: Option<usize> },
    /// The running task suspended.
    Suspend { rsp: usize, mode: SleepMode, fd: i32 },
    /// A readiness check returned.
    Poll { revents: Seq<i16> },
    /// The next task was picked.
    Schedule,
    /// The running task finished.
    Finish,
    /// A wake-up was called for `id`.
    Wake { id: usize },
}

} // verus!
