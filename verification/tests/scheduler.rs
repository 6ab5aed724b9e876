use corus::coroutines::{
    alive, go, handle, id, sleep_read, sleep_write, spawn, wake_up, yield_coroutine,
};
use corus::scheduler::CoroutineScheduler;
use corus::stack::StackRegion;
use corus::task::{Coroutine, Fatal, Interest, PollRequest, SleepMode, Timeout};

const FINISH: usize = 0xf000;

fn base(n: usize) -> usize {
    0x100000 + n * 0x4000
}

/// A scheduler with the bootstrap task and `n` spawned tasks, none of which
/// has run yet; task `k` has its stack at `base(k)`.
fn with_tasks(n: usize) -> CoroutineScheduler {
    let mut s = CoroutineScheduler::new(FINISH);
    for k in 1..=n {
        spawn(&mut s, 0xe000 + k, 0xa000 + k, StackRegion::new(base(k)));
    }
    s
}

/// Every id of the task table is in exactly one list, once.
fn assert_partition(s: &CoroutineScheduler) {
    for task in 0..s.task_count() {
        let places = s.active().iter().filter(|&&x| x == task).count()
            + s.asleep().iter().filter(|&&x| x == task).count()
            + s.dead().iter().filter(|&&x| x == task).count();
        assert_eq!(places, 1, "task {} is in {} places", task, places);
    }
    let listed = s.active().len() + s.asleep().len() + s.dead().len();
    assert_eq!(listed, s.task_count());
    assert!(!s.dead().contains(&0));
    assert_eq!(s.polls().len(), s.asleep().len());
}

#[test]
fn new_scheduler_runs_bootstrap_task() {
    let s = CoroutineScheduler::new(FINISH);
    assert_eq!(alive(&s), 1);
    assert!(s.is_running());
    assert_eq!(id(&s), 0);
    assert_eq!(s.task_count(), 1);
    assert_eq!(s.active(), &vec![0]);
    assert!(s.asleep().is_empty());
    assert!(s.dead().is_empty());
    assert!(s.polls().is_empty());
    assert_eq!(s.poll_timeout(), None);
    assert!(s.needs_stack());
    assert_partition(&s);
}

#[test]
fn bootstrap_entry_is_blank() {
    let s = CoroutineScheduler::new(FINISH);
    let main = handle(&s, 0);
    assert_eq!(main.f_ref(), None);
    assert_eq!(main.stack_base(), 0);
    let blank = Coroutine::new();
    assert_eq!(blank.f_ref(), None);
    assert_eq!(blank.stack_base(), 0);
}

#[test]
fn spawn_adds_one_active_task() {
    let mut s = CoroutineScheduler::new(FINISH);
    let frame = spawn(&mut s, 0x2000, 0x3000, StackRegion::new(0x10000));
    assert_eq!(alive(&s), 2);
    assert_eq!(s.active(), &vec![0, 1]);
    assert_eq!(id(&s), 0);
    assert_eq!(frame.rsp(), 0x10000 + 8192 - 72);
    assert_eq!(frame.word(0), FINISH);
    assert_eq!(frame.word(1), 0x2000);
    assert_eq!(frame.word(2), 0x3000);
    for k in 3..9 {
        assert_eq!(frame.word(k), 0);
    }
    assert_eq!(handle(&s, 1).f_ref(), Some(0x2000));
    assert_eq!(handle(&s, 1).stack_base(), 0x10000);
    assert_partition(&s);
}

#[test]
fn go_is_spawn() {
    let mut s = CoroutineScheduler::new(FINISH);
    let frame = go(&mut s, 0x2000, 0x3000, StackRegion::new(0x10000));
    assert_eq!(alive(&s), 2);
    assert_eq!(frame.rsp(), 0x10000 + 8192 - 72);
    assert_eq!(handle(&s, 1).f_ref(), Some(0x2000));
}

#[test]
fn spawn_increases_alive_by_exactly_one() {
    let mut s = CoroutineScheduler::new(FINISH);
    for k in 1..=5 {
        let before = alive(&s);
        spawn(&mut s, 0x2000, 0, StackRegion::new(base(k)));
        assert_eq!(alive(&s), before + 1);
    }
    assert_eq!(alive(&s), 6);
}

#[test]
fn first_resume_of_a_task_is_its_initial_frame() {
    let mut s = with_tasks(1);
    assert_eq!(yield_coroutine(&mut s, 0x7000), None);
    assert_eq!(s.schedule_next(), Ok(base(1) + 8192 - 72));
    assert_eq!(id(&s), 1);
}

#[test]
fn yield_saves_the_resume_point() {
    let mut s = with_tasks(1);
    yield_coroutine(&mut s, 0x7000);
    s.schedule_next().unwrap();
    yield_coroutine(&mut s, 0x7100);
    // Back to the bootstrap task, at the point where it yielded.
    assert_eq!(s.schedule_next(), Ok(0x7000));
    assert_eq!(id(&s), 0);
    yield_coroutine(&mut s, 0x7200);
    assert_eq!(s.schedule_next(), Ok(0x7100));
    assert_eq!(id(&s), 1);
}

#[test]
fn yield_leaves_cursor_past_the_end_until_scheduled() {
    let mut s = CoroutineScheduler::new(FINISH);
    yield_coroutine(&mut s, 0x7000);
    assert!(!s.is_running());
    assert_eq!(alive(&s), 1);
    assert_eq!(s.schedule_next(), Ok(0x7000));
    assert!(s.is_running());
    assert_eq!(id(&s), 0);
}

#[test]
fn round_robin_resumes_each_task_once_per_round() {
    let mut s = with_tasks(4);
    let mut resumed = Vec::new();
    for turn in 0..5 {
        yield_coroutine(&mut s, 0x7000 + turn);
        s.schedule_next().unwrap();
        resumed.push(id(&s));
    }
    assert_eq!(resumed, vec![1, 2, 3, 4, 0]);
    let mut second = Vec::new();
    for turn in 0..5 {
        yield_coroutine(&mut s, 0x8000 + turn);
        s.schedule_next().unwrap();
        second.push(id(&s));
    }
    assert_eq!(second, resumed);
}

#[test]
fn round_robin_from_the_middle_of_the_list() {
    let mut s = with_tasks(3);
    // Move the cursor to task 2.
    for _ in 0..2 {
        yield_coroutine(&mut s, 0x7000);
        s.schedule_next().unwrap();
    }
    assert_eq!(id(&s), 2);
    let mut resumed = Vec::new();
    for _ in 0..4 {
        yield_coroutine(&mut s, 0x7000);
        s.schedule_next().unwrap();
        resumed.push(id(&s));
    }
    let mut sorted = resumed.clone();
    sorted.sort();
    assert_eq!(sorted, vec![0, 1, 2, 3]);
    assert_eq!(resumed, vec![3, 0, 1, 2]);
}

#[test]
fn sleep_read_moves_task_to_asleep_with_registration() {
    let mut s = with_tasks(2);
    yield_coroutine(&mut s, 0x7000);
    s.schedule_next().unwrap();
    assert_eq!(id(&s), 1);
    let plan = sleep_read(&mut s, 0x7100, 5);
    assert_eq!(plan, Some(Timeout::Immediate));
    // Swap-removal: the last active task takes the sleeper's place.
    assert_eq!(s.active(), &vec![0, 2]);
    assert_eq!(s.asleep(), &vec![1]);
    assert_eq!(s.polls(), &vec![PollRequest { fd: 5, interest: Interest::Read }]);
    assert_eq!(alive(&s), 2);
    assert_partition(&s);
    // The task swapped into the sleeper's place runs next.
    assert_eq!(s.schedule_next(), Ok(base(2) + 8192 - 72));
    assert_eq!(id(&s), 2);
}

#[test]
fn sleep_write_registers_write_interest() {
    let mut s = with_tasks(1);
    let plan = sleep_write(&mut s, 0x7000, 9);
    assert_eq!(plan, Some(Timeout::Immediate));
    assert_eq!(s.active(), &vec![1]);
    assert_eq!(s.asleep(), &vec![0]);
    assert_eq!(s.polls(), &vec![PollRequest { fd: 9, interest: Interest::Write }]);
}

#[test]
fn switch_context_by_mode() {
    let mut s = with_tasks(1);
    assert_eq!(s.switch_context(0x7000, SleepMode::Yield, 3), None);
    assert!(s.polls().is_empty());
    s.schedule_next().unwrap();
    assert_eq!(s.switch_context(0x7100, SleepMode::Write, 3), Some(Timeout::Immediate));
    assert_eq!(s.polls(), &vec![PollRequest { fd: 3, interest: Interest::Write }]);
    s.schedule_next().unwrap();
    assert_eq!(s.switch_context(0x7200, SleepMode::Read, 4), Some(Timeout::Indefinite));
    assert_eq!(
        s.polls(),
        &vec![
            PollRequest { fd: 3, interest: Interest::Write },
            PollRequest { fd: 4, interest: Interest::Read },
        ]
    );
    assert_eq!(s.asleep(), &vec![1, 0]);
}

#[test]
fn timeout_is_indefinite_only_when_nothing_is_runnable() {
    let mut s = CoroutineScheduler::new(FINISH);
    assert_eq!(s.poll_timeout(), None);
    let plan = sleep_read(&mut s, 0x7000, 4);
    assert_eq!(plan, Some(Timeout::Indefinite));
    assert_eq!(s.poll_timeout(), Some(Timeout::Indefinite));
    assert_eq!(alive(&s), 0);
    wake_up(&mut s, 0);
    assert_eq!(s.poll_timeout(), None);
}

#[test]
fn schedule_next_fails_when_nothing_is_active() {
    let mut s = CoroutineScheduler::new(FINISH);
    sleep_read(&mut s, 0x7000, 4);
    s.process_polls(vec![0]);
    assert_eq!(s.schedule_next(), Err(Fatal::NoActiveCoroutines));
    // Nothing changed.
    assert_eq!(s.asleep(), &vec![0]);
    assert!(s.active().is_empty());
    assert!(!s.is_running());
    assert_partition(&s);
}

#[test]
fn sleeper_is_not_resumed_until_ready() {
    let mut s = with_tasks(2);
    yield_coroutine(&mut s, 0x7000);
    s.schedule_next().unwrap();
    sleep_read(&mut s, 0x7100, 5);
    s.process_polls(vec![0]);
    s.schedule_next().unwrap();
    for _ in 0..10 {
        assert_ne!(id(&s), 1);
        yield_coroutine(&mut s, 0x7200);
        s.process_polls(vec![0]);
        s.schedule_next().unwrap();
    }
    assert_eq!(s.asleep(), &vec![1]);
    // Its descriptor reports readiness.
    yield_coroutine(&mut s, 0x7300);
    s.process_polls(vec![0x40]);
    assert!(s.asleep().is_empty());
    assert!(s.polls().is_empty());
    assert_eq!(s.active().last(), Some(&1));
    let mut seen = false;
    for _ in 0..3 {
        s.schedule_next().unwrap();
        seen = seen || id(&s) == 1;
        yield_coroutine(&mut s, 0x7400);
    }
    assert!(seen);
}

#[test]
fn process_polls_wakes_exactly_the_ready_sleepers() {
    let mut s = with_tasks(5);
    // Put four tasks to sleep, each on the descriptor 10 + its id.
    yield_coroutine(&mut s, 0x7000);
    s.schedule_next().unwrap();
    for _ in 0..4 {
        let me = id(&s);
        sleep_read(&mut s, 0x7000 + me, 10 + me as i32);
        s.process_polls(vec![0; s.polls().len()]);
        s.schedule_next().unwrap();
    }
    assert_eq!(s.asleep().len(), 4);
    assert_eq!(alive(&s), 2);
    let sleepers = s.asleep().clone();
    let before_active = s.active().clone();
    // Ready: the sleepers at positions 0 and 2.
    s.process_polls(vec![1, 0, 4, 0]);
    let mut still = s.asleep().clone();
    still.sort();
    let mut expected_still = vec![sleepers[1], sleepers[3]];
    expected_still.sort();
    assert_eq!(still, expected_still);
    // The woken ones join behind the tasks that were active.
    assert_eq!(&s.active()[..before_active.len()], &before_active[..]);
    let mut woken: Vec<usize> = s.active()[before_active.len()..].to_vec();
    woken.sort();
    let mut expected_woken = vec![sleepers[0], sleepers[2]];
    expected_woken.sort();
    assert_eq!(woken, expected_woken);
    // Each sleeper keeps its own registration.
    for (k, task) in s.asleep().iter().enumerate() {
        assert_eq!(s.polls()[k], PollRequest { fd: 10 + *task as i32, interest: Interest::Read });
    }
    assert_partition(&s);
}

#[test]
fn process_polls_sweep_order() {
    let mut s = with_tasks(3);
    // Sleepers in order 0, 1, 2, 3: the bootstrap task sleeps last but one.
    sleep_read(&mut s, 0x7000, 20);
    s.schedule_next().unwrap();
    while alive(&s) > 1 {
        let me = id(&s);
        sleep_read(&mut s, 0x7000, 20 + me as i32);
        s.schedule_next().unwrap();
    }
    let last = id(&s);
    assert_eq!(s.asleep().len(), 3);
    let a = s.asleep().clone();
    // Position 0 is ready: the last sleeper is swapped into its place and
    // looked at next with its own events, which are zero.
    s.process_polls(vec![7, 0, 0]);
    assert_eq!(s.asleep(), &vec![a[2], a[1]]);
    assert_eq!(s.active(), &vec![last, a[0]]);
    // All ready: woken in the order in which the sweep meets them.
    let b = s.asleep().clone();
    s.process_polls(vec![1, 1]);
    assert!(s.asleep().is_empty());
    assert_eq!(s.active(), &vec![last, a[0], b[0], b[1]]);
}

#[test]
fn process_polls_with_no_registrations_changes_nothing() {
    let mut s = with_tasks(2);
    s.process_polls(Vec::new());
    assert_eq!(s.active(), &vec![0, 1, 2]);
    assert!(s.asleep().is_empty());
    assert_eq!(id(&s), 0);
}

#[test]
fn negative_returned_events_count_as_ready() {
    let mut s = with_tasks(1);
    sleep_read(&mut s, 0x7000, 4);
    s.process_polls(vec![-1]);
    assert!(s.asleep().is_empty());
    assert_eq!(s.active(), &vec![1, 0]);
}

#[test]
fn wake_up_moves_sleeper_to_the_end_of_active() {
    let mut s = with_tasks(2);
    yield_coroutine(&mut s, 0x7000);
    s.schedule_next().unwrap();
    sleep_read(&mut s, 0x7100, 5);
    s.schedule_next().unwrap();
    assert_eq!(s.asleep(), &vec![1]);
    wake_up(&mut s, 1);
    assert!(s.asleep().is_empty());
    assert!(s.polls().is_empty());
    assert_eq!(s.active(), &vec![0, 2, 1]);
    assert_partition(&s);
}

#[test]
fn wake_up_removes_the_paired_registration() {
    let mut s = with_tasks(3);
    sleep_read(&mut s, 0x7000, 30);
    s.schedule_next().unwrap();
    let second = id(&s);
    sleep_write(&mut s, 0x7100, 31);
    s.schedule_next().unwrap();
    let third = id(&s);
    sleep_read(&mut s, 0x7200, 32);
    s.schedule_next().unwrap();
    assert_eq!(s.asleep(), &vec![0, second, third]);
    wake_up(&mut s, 0);
    // The last sleeper and its registration take the vacated place.
    assert_eq!(s.asleep(), &vec![third, second]);
    assert_eq!(
        s.polls(),
        &vec![
            PollRequest { fd: 32, interest: Interest::Read },
            PollRequest { fd: 31, interest: Interest::Write },
        ]
    );
    assert_partition(&s);
}

#[test]
fn wake_up_of_a_task_that_is_not_asleep_is_a_no_op() {
    let mut s = with_tasks(2);
    yield_coroutine(&mut s, 0x7000);
    s.schedule_next().unwrap();
    s.finish_current().unwrap();
    s.schedule_next().unwrap();
    let active = s.active().clone();
    let dead = s.dead().clone();
    let me = id(&s);
    // Active, dead and unknown ids.
    wake_up(&mut s, active[0]);
    wake_up(&mut s, dead[0]);
    wake_up(&mut s, 99);
    wake_up(&mut s, usize::MAX);
    assert_eq!(s.active(), &active);
    assert_eq!(s.dead(), &dead);
    assert!(s.asleep().is_empty());
    assert_eq!(id(&s), me);
}

#[test]
fn finish_moves_task_to_dead_and_decreases_alive_by_one() {
    let mut s = with_tasks(3);
    yield_coroutine(&mut s, 0x7000);
    s.schedule_next().unwrap();
    assert_eq!(id(&s), 1);
    let before = alive(&s);
    assert_eq!(s.finish_current(), Ok(None));
    assert_eq!(alive(&s), before - 1);
    assert_eq!(s.dead(), &vec![1]);
    assert_eq!(s.active(), &vec![0, 3, 2]);
    assert_partition(&s);
    s.schedule_next().unwrap();
    assert_eq!(id(&s), 3);
}

#[test]
fn finish_of_the_last_position_wraps_the_cursor() {
    let mut s = with_tasks(2);
    for _ in 0..2 {
        yield_coroutine(&mut s, 0x7000);
        s.schedule_next().unwrap();
    }
    assert_eq!(id(&s), 2);
    s.finish_current().unwrap();
    assert!(!s.is_running());
    assert_eq!(s.schedule_next(), Ok(0x7000));
    assert_eq!(id(&s), 0);
}

#[test]
fn finish_reports_the_readiness_check_that_is_due() {
    let mut s = with_tasks(1);
    sleep_read(&mut s, 0x7000, 4);
    s.schedule_next().unwrap();
    assert_eq!(id(&s), 1);
    assert_eq!(s.finish_current(), Ok(Some(Timeout::Indefinite)));
    s.process_polls(vec![1]);
    assert_eq!(s.schedule_next(), Ok(0x7000));
    assert_eq!(id(&s), 0);
}

#[test]
fn finish_of_the_bootstrap_task_is_rejected() {
    let mut s = CoroutineScheduler::new(FINISH);
    assert_eq!(s.finish_current(), Err(Fatal::MainFinished));
    assert_eq!(s.active(), &vec![0]);
    assert!(s.dead().is_empty());
    assert!(s.is_running());
    assert_eq!(id(&s), 0);
    assert_eq!(alive(&s), 1);
    assert_partition(&s);
}

#[test]
fn finish_of_the_bootstrap_task_is_rejected_among_others() {
    let mut s = with_tasks(2);
    assert_eq!(s.finish_current(), Err(Fatal::MainFinished));
    assert_eq!(s.active(), &vec![0, 1, 2]);
    assert!(s.dead().is_empty());
    // The scheduler goes on as if nothing had happened.
    yield_coroutine(&mut s, 0x7000);
    s.schedule_next().unwrap();
    assert_eq!(id(&s), 1);
    assert_eq!(s.finish_current(), Ok(None));
    assert_eq!(s.dead(), &vec![1]);
}

#[test]
fn spawn_recycles_the_stack_of_the_task_that_finished_last() {
    let mut s = with_tasks(2);
    yield_coroutine(&mut s, 0x7000);
    s.schedule_next().unwrap();
    s.finish_current().unwrap();
    s.schedule_next().unwrap();
    assert_eq!(s.dead(), &vec![1]);
    assert!(!s.needs_stack());
    let tasks = s.task_count();
    // No fresh region is offered, and none is needed.
    let frame = spawn(&mut s, 0xbeef, 0xcafe, None);
    assert_eq!(s.task_count(), tasks);
    assert!(s.dead().is_empty());
    assert_eq!(s.active().last(), Some(&1));
    assert_eq!(handle(&s, 1).stack_base(), base(1));
    assert_eq!(handle(&s, 1).f_ref(), Some(0xbeef));
    assert_eq!(frame.rsp(), base(1) + 8192 - 72);
    assert_eq!(frame.word(0), FINISH);
    assert_eq!(frame.word(1), 0xbeef);
    assert_eq!(frame.word(2), 0xcafe);
    assert!(s.needs_stack());
    assert_partition(&s);
}

#[test]
fn spawn_ignores_a_fresh_region_while_a_dead_task_is_left() {
    let mut s = with_tasks(2);
    yield_coroutine(&mut s, 0x7000);
    s.schedule_next().unwrap();
    s.finish_current().unwrap();
    s.schedule_next().unwrap();
    let frame = spawn(&mut s, 0xbeef, 0, StackRegion::new(0x900000));
    assert_eq!(frame.rsp(), base(1) + 8192 - 72);
    assert_eq!(handle(&s, 1).stack_base(), base(1));
    assert_eq!(s.task_count(), 3);
}

#[test]
fn dead_ids_are_reused_last_in_first_out() {
    let mut s = with_tasks(3);
    yield_coroutine(&mut s, 0x7000);
    s.schedule_next().unwrap();
    while alive(&s) > 1 {
        if id(&s) == 0 {
            yield_coroutine(&mut s, 0x7000);
        } else {
            s.finish_current().unwrap();
        }
        s.schedule_next().unwrap();
    }
    let dead = s.dead().clone();
    assert_eq!(dead.len(), 3);
    for k in 0..3 {
        spawn(&mut s, 0x2000, 0, None);
        assert_eq!(s.active().last(), Some(&dead[2 - k]));
    }
    assert!(s.dead().is_empty());
    assert_eq!(s.task_count(), 4);
    spawn(&mut s, 0x2000, 0, StackRegion::new(base(4)));
    assert_eq!(s.task_count(), 5);
    assert_eq!(s.active().last(), Some(&4));
    assert_partition(&s);
}

#[test]
fn recycled_task_resumes_from_its_new_frame() {
    let mut s = with_tasks(1);
    yield_coroutine(&mut s, 0x7000);
    s.schedule_next().unwrap();
    // Task 1 runs for a while, so that its saved resume point moves.
    yield_coroutine(&mut s, 0x5550);
    s.schedule_next().unwrap();
    yield_coroutine(&mut s, 0x7010);
    assert_eq!(s.schedule_next(), Ok(0x5550));
    s.finish_current().unwrap();
    s.schedule_next().unwrap();
    spawn(&mut s, 0x2000, 0, None);
    yield_coroutine(&mut s, 0x7020);
    assert_eq!(s.schedule_next(), Ok(base(1) + 8192 - 72));
    assert_eq!(id(&s), 1);
}

#[test]
fn lists_stay_a_partition_through_a_mixed_run() {
    let mut s = with_tasks(4);
    let mut step = 0usize;
    while step < 200 {
        assert_partition(&s);
        let me = id(&s);
        match step % 7 {
            0 | 3 => {
                yield_coroutine(&mut s, 0x7000 + step);
            }
            1 => {
                sleep_read(&mut s, 0x7000 + step, me as i32);
            }
            2 => {
                if me == 0 {
                    yield_coroutine(&mut s, 0x7000 + step);
                } else {
                    s.finish_current().unwrap();
                }
            }
            4 => {
                let region = if s.needs_stack() {
                    StackRegion::new(base(s.task_count()))
                } else {
                    None
                };
                spawn(&mut s, 0x2000 + step, 0, region);
                yield_coroutine(&mut s, 0x7000 + step);
            }
            5 => {
                wake_up(&mut s, step % 5);
                yield_coroutine(&mut s, 0x7000 + step);
            }
            _ => {
                sleep_write(&mut s, 0x7000 + step, me as i32);
            }
        }
        assert_partition(&s);
        if let Some(timeout) = s.poll_timeout() {
            let ready = timeout == Timeout::Indefinite;
            let revents: Vec<i16> =
                (0..s.polls().len()).map(|k| if ready || k % 2 == 0 { 1 } else { 0 }).collect();
            s.process_polls(revents);
        }
        assert_partition(&s);
        s.schedule_next().unwrap();
        assert!(s.is_running());
        step += 1;
    }
}
