use vstd::prelude::*;
use std::collections::VecDeque;

verus! {

/// The history after appending `item` and, when that makes it longer than
/// `limit`, dropping its oldest entry.
pub open spec fn capped_push<T>(history: Seq<T>, item: T, limit: nat) -> Seq<T> {
    let pushed = history.push(item);
    if pushed.len() > limit {
        pushed.drop_first()
    } else {
        pushed
    }
}

/// Appends `item` to a bounded history, dropping the oldest entry once the
/// history grows past `limit`.
pub fn push_capped<T>(history: &mut VecDeque<T>, item: T, limit: usize)
    requires
        old(history)@.len() < usize::MAX,
    ensures
        final(history)@ == capped_push(old(history)@, item, limit as nat),
{
    history.push_back(item);
    if history.len() > limit {
        let _ = history.pop_front();
    }
}


/// Appends `item` to a bounded list, removing its first entry once the list
/// grows past `limit`.
pub fn push_capped_vec<T>(history: &mut Vec<T>, item: T, limit: usize)
    requires
        old(history)@.len() < usize::MAX,
    ensures
        final(history)@ == capped_push(old(history)@, item, limit as nat),
{
    history.push(item);
    if history.len() > limit {
        let _ = history.remove(0);
        assert(history@ =~= capped_push(old(history)@, item, limit as nat));
    }
}

/// The history after appending `item` and dropping the oldest entries until
/// at most `limit` remain.
pub open spec fn trimmed_push<T>(history: Seq<T>, item: T, limit: nat) -> Seq<T> {
    let pushed = history.push(item);
    if pushed.len() > limit {
        pushed.skip(pushed.len() - limit)
    } else {
        pushed
    }
}

/// Appends `item` to a history and drops its oldest entries until at most
/// `limit` remain.
pub fn push_trimmed<T>(history: &mut VecDeque<T>, item: T, limit: usize)
    requires
        old(history)@.len() < usize::MAX,
    ensures
        final(history)@ == trimmed_push(old(history)@, item, limit as nat),
{
    history.push_back(item);
    let ghost pushed = history@;
    while history.len() > limit
        invariant
            pushed == old(history)@.push(item),
            history@.len() <= pushed.len(),
            history@ == pushed.skip(pushed.len() - history@.len()),
            pushed.len() > limit ==> history@.len() >= limit,
            pushed.len() <= limit ==> history@.len() == pushed.len(),
        decreases history@.len(),
    {
        let _ = history.pop_front();
        assert(history@ =~= pushed.skip(pushed.len() - history@.len()));
    }
    proof {
        if pushed.len() <= limit {
            assert(pushed.skip(0) =~= pushed);
        }
        assert(history@.len() == pushed.len() || history@.len() == limit);
    }
}

/// A capped history never grows past its limit: starting within the limit,
/// a push keeps it within the limit and the new item is its newest entry,
/// preceded by the newest of the old entries in their order.
pub proof fn lemma_capped_push_bounded<T>(history: Seq<T>, item: T, limit: nat)
    requires
        history.len() <= limit,
        limit >= 1,
    ensures
        capped_push(history, item, limit).len() <= limit,
        capped_push(history, item, limit).last() == item,
        capped_push(history, item, limit) =~= history.push(item).skip(
            history.len() + 1 - capped_push(history, item, limit).len(),
        ),
{
}

/// A trimmed history never holds more than its limit: whatever it held
/// before, after a push it holds at most `limit` entries, the newest of all
/// entries in their order, ending with the new item.
pub proof fn lemma_trimmed_push_bounded<T>(history: Seq<T>, item: T, limit: nat)
    requires
        limit >= 1,
    ensures
        trimmed_push(history, item, limit).len() <= limit,
        trimmed_push(history, item, limit).last() == item,
        trimmed_push(history, item, limit) =~= history.push(item).skip(
            history.len() + 1 - trimmed_push(history, item, limit).len(),
        ),
{
}

/// How many entries at the front of a time-stamped history are older than
/// `start`.
pub open spec fn leading_older<T>(s: Seq<(u64, T)>, start: u64) -> nat
    decreases s.len(),
{
    if s.len() == 0 || s[0].0 >= start {
        0
    } else {
        1 + leading_older(s.drop_first(), start)
    }
}

/// Drops the entries at the front of a time-stamped history that are older
/// than `start`, stopping at the first one that is not.
pub fn prune_before<T>(history: &mut VecDeque<(u64, T)>, start: u64)
    ensures
        final(history)@ == old(history)@.skip(leading_older(old(history)@, start) as int),
{
    let ghost s0 = history@;
    let ghost mut dropped: int = 0;
    while history.len() > 0 && history[0].0 < start
        invariant
            0 <= dropped <= s0.len(),
            history@ == s0.skip(dropped),
            leading_older(s0, start) == dropped + leading_older(history@, start),
        decreases history@.len(),
    {
        let ghost before = history@;
        let _ = history.pop_front();
        proof {
            assert(history@ =~= before.drop_first());
            assert(s0.skip(dropped + 1) =~= before.drop_first());
            dropped = dropped + 1;
        }
    }
}

/// Time stamps that never decrease from front to back.
pub open spec fn stamps_ordered<T>(s: Seq<(u64, T)>) -> bool {
    forall|i: int, j: int| 0 <= i <= j < s.len() ==> (#[trigger] s[i]).0 <= (#[trigger] s[j]).0
}

/// In a history kept in time order, pruning drops exactly the entries older
/// than `start`: every dropped entry is older, every kept one is not, and
/// what is kept stays in time order.
pub proof fn lemma_prune_keeps_window<T>(s: Seq<(u64, T)>, start: u64)
    requires
        stamps_ordered(s),
    ensures
        leading_older(s, start) <= s.len(),
        forall|i: int| 0 <= i < leading_older(s, start) ==> (#[trigger] s[i]).0 < start,
        forall|i: int| leading_older(s, start) <= i < s.len() ==> (#[trigger] s[i]).0 >= start,
        stamps_ordered(s.skip(leading_older(s, start) as int)),
    decreases s.len(),
{
    if s.len() > 0 && s[0].0 < start {
        let t = s.drop_first();
        assert forall|i: int, j: int| 0 <= i <= j < t.len() implies (#[trigger] t[i]).0 <= (#[trigger] t[j]).0 by {
            assert(t[i] == s[i + 1] && t[j] == s[j + 1]);
        }
        lemma_prune_keeps_window(t, start);
        let k = leading_older(s, start);
        assert forall|i: int| 0 <= i < k implies (#[trigger] s[i]).0 < start by {
            if i > 0 {
                assert(s[i] == t[i - 1]);
            }
        }
        assert forall|i: int| k <= i < s.len() implies (#[trigger] s[i]).0 >= start by {
            assert(s[i] == t[i - 1]);
        }
        assert(s.skip(k as int) =~= t.skip(leading_older(t, start) as int));
    } else {
        assert(s.skip(0) =~= s);
        if s.len() > 0 {
            assert forall|i: int| 0 <= i < s.len() implies (#[trigger] s[i]).0 >= start by {
                assert(s[0].0 <= s[i].0);
            }
        }
    }
}

} // verus!
