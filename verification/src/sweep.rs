//! What a sweep over the readiness registrations does, position by position.

use vstd::prelude::*;
use crate::lists::{lemma_push_contains, lemma_swap_remove, swap_remove};
use crate::model::SchedulerState;
use crate::preserved::{lemma_listed_is_known, lemma_woken_at_wf};
use crate::task::PollRequest;

verus! {

/// What a readiness check returned for the sleeper `id`.
pub open spec fn returned_for(s: SchedulerState, revents: Seq<i16>, id: usize) -> i16
    recommends
        s.asleep.contains(id),
        revents.len() == s.asleep.len(),
{
    revents[s.asleep.index_of(id)]
}

/// The registration of the sleeper `id`.
pub open spec fn registration_of(s: SchedulerState, id: usize) -> PollRequest
    recommends
        s.asleep.contains(id),
{
    s.polls[s.asleep.index_of(id)]
}

/// In a list without duplicates an element is found where it stands.
pub proof fn lemma_index_of<T>(s: Seq<T>, k: int)
    requires
        s.no_duplicates(),
        0 <= k < s.len(),
    ensures
        s.contains(s[k]),
        s.index_of(s[k]) == k,
{
    assert(s.contains(s[k]));
    let j = s.index_of(s[k]);
    assert(0 <= j < s.len() && s[j] == s[k]);
}

/// An element of a list is found at one of its positions.
pub proof fn lemma_index_of_contained<T>(s: Seq<T>, x: T)
    requires
        s.contains(x),
    ensures
        0 <= s.index_of(x) < s.len(),
        s[s.index_of(x)] == x,
{
}

/// Waking the sleeper at position `i` leaves every other sleeper asleep,
/// paired with the same registration and the same returned events.
pub proof fn lemma_woken_at_pairs(s: SchedulerState, revents: Seq<i16>, i: int, x: usize)
    requires
        s.wf(),
        revents.len() == s.asleep.len(),
        0 <= i < s.asleep.len(),
        s.asleep.contains(x),
    ensures
        ({
            let t = s.woken_at(i);
            let p = s.asleep.index_of(x);
            let q = t.asleep.index_of(x);
            &&& 0 <= p < s.asleep.len()
            &&& t.asleep.contains(x) <==> p != i
            &&& p != i ==> {
                &&& 0 <= q < t.asleep.len()
                &&& q == if p == s.asleep.len() - 1 {
                    i
                } else {
                    p
                }
                &&& swap_remove(revents, i)[q] == revents[p]
                &&& t.polls[q] == s.polls[p]
            }
        }),
{
    let t = s.woken_at(i);
    let p = s.asleep.index_of(x);
    lemma_index_of_contained(s.asleep, x);
    lemma_index_of(s.asleep, i);
    lemma_swap_remove(s.asleep, i);
    if p != i {
        let q0 = if p == s.asleep.len() - 1 {
            i
        } else {
            p
        };
        assert(t.asleep[q0] == x);
        lemma_index_of(t.asleep, q0);
    }
}

/// A sweep from position `i` on wakes exactly the sleepers at or after `i`
/// whose returned events are not zero. They join `active` behind the tasks
/// that were active; every other sleeper stays asleep with its registration;
/// nothing else changes.
pub proof fn lemma_polled_from(s: SchedulerState, revents: Seq<i16>, i: nat)
    requires
        s.wf(),
        revents.len() == s.asleep.len(),
        i <= s.asleep.len(),
    ensures
        ({
            let r = s.polled_from(revents, i);
            &&& r.current == s.current
            &&& r.dead == s.dead
            &&& r.tasks == s.tasks
            &&& r.finish == s.finish
            &&& r.active.len() >= s.active.len()
            &&& r.active.subrange(0, s.active.len() as int) == s.active
            &&& forall|x: usize| #[trigger]
                r.asleep.contains(x) <==> s.asleep.contains(x) && (s.asleep.index_of(x) < i
                    || returned_for(s, revents, x) == 0)
            &&& forall|x: usize| #[trigger]
                r.active.contains(x) <==> s.active.contains(x) || (s.asleep.contains(x)
                    && s.asleep.index_of(x) >= i && returned_for(s, revents, x) != 0)
            &&& forall|x: usize|
                r.asleep.contains(x) ==> #[trigger] registration_of(r, x) == registration_of(
                    s,
                    x,
                )
        }),
    decreases s.asleep.len() - i,
{
    let r = s.polled_from(revents, i);
    if i < s.asleep.len() {
        if revents[i as int] != 0 {
            let t = s.woken_at(i as int);
            let events = swap_remove(revents, i as int);
            lemma_woken_at_wf(s, i as int);
            lemma_polled_from(t, events, i);
            lemma_index_of(s.asleep, i as int);
            lemma_push_contains(s.active, s.asleep[i as int]);
            assert(r.active.subrange(0, s.active.len() as int) =~= s.active) by {
                assert(r.active.subrange(0, t.active.len() as int) == t.active);
                assert forall|k: int| 0 <= k < s.active.len() implies r.active.subrange(
                    0,
                    s.active.len() as int,
                )[k] == s.active[k] by {
                    assert(r.active.subrange(0, t.active.len() as int)[k] == t.active[k]);
                }
            }
            assert forall|x: usize| #[trigger]
                r.asleep.contains(x) <==> s.asleep.contains(x) && (s.asleep.index_of(x) < i
                    || returned_for(s, revents, x) == 0) by {
                if s.asleep.contains(x) {
                    lemma_woken_at_pairs(s, revents, i as int, x);
                } else {
                    lemma_swap_remove(s.asleep, i as int);
                }
            }
            assert forall|x: usize| #[trigger]
                r.active.contains(x) <==> s.active.contains(x) || (s.asleep.contains(x)
                    && s.asleep.index_of(x) >= i && returned_for(s, revents, x) != 0) by {
                if s.asleep.contains(x) {
                    lemma_woken_at_pairs(s, revents, i as int, x);
                } else {
                    lemma_swap_remove(s.asleep, i as int);
                    assert(s.active.contains(s.asleep[i as int]) ==> false) by {
                        if s.active.contains(s.asleep[i as int]) {
                            lemma_listed_is_known(s, s.asleep[i as int]);
                        }
                    }
                }
            }
            assert forall|x: usize| r.asleep.contains(x) implies #[trigger] registration_of(r, x)
                == registration_of(s, x) by {
                assert(t.asleep.contains(x));
                lemma_swap_remove(s.asleep, i as int);
                lemma_woken_at_pairs(s, revents, i as int, x);
                assert(registration_of(r, x) == registration_of(t, x));
            }
        } else {
            lemma_polled_from(s, revents, i + 1);
            assert forall|x: usize| #[trigger]
                r.asleep.contains(x) <==> s.asleep.contains(x) && (s.asleep.index_of(x) < i
                    || returned_for(s, revents, x) == 0) by {
                if s.asleep.contains(x) {
                    lemma_index_of_contained(s.asleep, x);
                }
            }
            assert forall|x: usize| #[trigger]
                r.active.contains(x) <==> s.active.contains(x) || (s.asleep.contains(x)
                    && s.asleep.index_of(x) >= i && returned_for(s, revents, x) != 0) by {
                if s.asleep.contains(x) {
                    lemma_index_of_contained(s.asleep, x);
                }
            }
        }
    } else {
        assert(r == s);
        assert(r.active.subrange(0, s.active.len() as int) =~= s.active);
        assert forall|x: usize| #[trigger]
            r.asleep.contains(x) <==> s.asleep.contains(x) && (s.asleep.index_of(x) < i
                || returned_for(s, revents, x) == 0) by {
            if s.asleep.contains(x) {
                lemma_index_of_contained(s.asleep, x);
            }
        }
    }
}

} // verus!
