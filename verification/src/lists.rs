//! Facts about the id lists: appending, and removal by swapping the last
//! element into the vacated place.

use vstd::prelude::*;

verus! {

/// `s` without the element at `i`: the last element takes its place.
pub open spec fn swap_remove<T>(s: Seq<T>, i: int) -> Seq<T>
    recommends
        0 <= i < s.len(),
{
    s.update(i, s.last()).drop_last()
}

/// 1 if `b` holds, else 0.
pub open spec fn count(b: bool) -> nat {
    if b {
        1
    } else {
        0
    }
}

/// Appending `x` adds `x` to what the list contains, and nothing else.
pub proof fn lemma_push_contains<T>(s: Seq<T>, x: T)
    ensures
        forall|y: T| #[trigger] s.push(x).contains(y) <==> s.contains(y) || y == x,
{
    assert forall|y: T| #[trigger] s.push(x).contains(y) <==> s.contains(y) || y == x by {
        let p = s.push(x);
        if p.contains(y) {
            let k = choose|k: int| 0 <= k < p.len() && p[k] == y;
            if k < s.len() {
                assert(s[k] == y);
            }
        }
        if s.contains(y) {
            let k = choose|k: int| 0 <= k < s.len() && s[k] == y;
            assert(p[k] == y);
        }
        if y == x {
            assert(p[s.len() as int] == y);
        }
    }
}

/// Appending an element that the list lacks keeps it free of duplicates.
pub proof fn lemma_push_no_duplicates<T>(s: Seq<T>, x: T)
    requires
        s.no_duplicates(),
        !s.contains(x),
    ensures
        s.push(x).no_duplicates(),
{
    let p = s.push(x);
    assert forall|i: int, j: int| 0 <= i < p.len() && 0 <= j < p.len() && i != j implies p[i]
        != p[j] by {
        if i < s.len() && j < s.len() {
        } else if i < s.len() {
            assert(s.contains(s[i]));
        } else {
            assert(s.contains(s[j]));
        }
    }
}

/// Swap-removal at `i` takes out exactly the element at `i` and leaves the
/// list free of duplicates.
pub proof fn lemma_swap_remove<T>(s: Seq<T>, i: int)
    requires
        s.no_duplicates(),
        0 <= i < s.len(),
    ensures
        swap_remove(s, i).len() == s.len() - 1,
        swap_remove(s, i).no_duplicates(),
        forall|y: T| #[trigger] swap_remove(s, i).contains(y) <==> s.contains(y) && y != s[i],
{
    let r = swap_remove(s, i);
    let last = s.len() - 1;
    assert forall|a: int, b: int| 0 <= a < r.len() && 0 <= b < r.len() && a != b implies r[a]
        != r[b] by {
        let a0 = if a == i { last } else { a };
        let b0 = if b == i { last } else { b };
        assert(r[a] == s[a0] && r[b] == s[b0]);
    }
    assert forall|y: T| #[trigger] r.contains(y) <==> s.contains(y) && y != s[i] by {
        if r.contains(y) {
            let k = choose|k: int| 0 <= k < r.len() && r[k] == y;
            let k0 = if k == i { last } else { k };
            assert(s[k0] == y);
        }
        if s.contains(y) && y != s[i] {
            let k = choose|k: int| 0 <= k < s.len() && s[k] == y;
            if k == last {
                assert(r[i] == y);
            } else {
                assert(r[k] == y);
            }
        }
    }
}

/// Dropping the last element takes out exactly that element.
pub proof fn lemma_drop_last<T>(s: Seq<T>)
    requires
        s.no_duplicates(),
        s.len() > 0,
    ensures
        s.drop_last().no_duplicates(),
        forall|y: T| #[trigger] s.drop_last().contains(y) <==> s.contains(y) && y != s.last(),
{
    assert(s.drop_last() =~= swap_remove(s, s.len() - 1));
    lemma_swap_remove(s, s.len() - 1);
}

} // verus!
