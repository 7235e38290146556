//! The lock-schedule arithmetic: how much of a position is still locked at a
//! given instant.
//!
//! A schedule is a pair of index-aligned vectors: per stake event, the amount
//! locked and the time it unlocks. An entry counts as locked strictly until
//! its unlock time. Entries are never removed, so the locked total falls to
//! zero by itself as time passes the unlock times.
use vstd::prelude::*;

use crate::errors::StakingError;

verus! {

/// The sum of every entry still locked at `now`: those with
/// `unlocked_at > now`.
pub open spec fn locked_sum(locked: Seq<u128>, unlocked: Seq<u64>, now: u64) -> int
    decreases locked.len(),
{
    if locked.len() == 0 {
        0
    } else {
        locked_sum(locked.drop_last(), unlocked.drop_last(), now) + if unlocked[locked.len()
            - 1] > now {
            locked.last() as int
        } else {
            0
        }
    }
}

/// The sum of every entry of the schedule, locked or not.
pub open spec fn entry_sum(locked: Seq<u128>) -> int
    decreases locked.len(),
{
    if locked.len() == 0 {
        0
    } else {
        entry_sum(locked.drop_last()) + locked.last() as int
    }
}

/// Extending a schedule prefix never shrinks its locked sum.
pub proof fn lemma_locked_sum_take_increases(
    locked: Seq<u128>,
    unlocked: Seq<u64>,
    now: u64,
    i: int,
    j: int,
)
    requires
        0 <= i <= j <= locked.len(),
        unlocked.len() == locked.len(),
    ensures
        locked_sum(locked.take(i), unlocked.take(i), now) <= locked_sum(
            locked.take(j),
            unlocked.take(j),
            now,
        ),
    decreases j - i,
{
    if i < j {
        lemma_locked_sum_take_increases(locked, unlocked, now, i, j - 1);
        assert(locked.take(j).drop_last() =~= locked.take(j - 1));
        assert(unlocked.take(j).drop_last() =~= unlocked.take(j - 1));
    }
}

/// What is locked never grows as time passes.
pub proof fn lemma_locked_sum_antitone(locked: Seq<u128>, unlocked: Seq<u64>, t1: u64, t2: u64)
    requires
        t1 <= t2,
    ensures
        locked_sum(locked, unlocked, t2) <= locked_sum(locked, unlocked, t1),
    decreases locked.len(),
{
    if locked.len() > 0 {
        lemma_locked_sum_antitone(locked.drop_last(), unlocked.drop_last(), t1, t2);
    }
}

/// Once `now` has passed every unlock time, nothing is locked.
pub proof fn lemma_locked_sum_zero_after_all(locked: Seq<u128>, unlocked: Seq<u64>, now: u64)
    requires
        unlocked.len() == locked.len(),
        forall|i: int| 0 <= i < unlocked.len() ==> unlocked[i] <= now,
    ensures
        locked_sum(locked, unlocked, now) == 0,
    decreases locked.len(),
{
    if locked.len() > 0 {
        lemma_locked_sum_zero_after_all(locked.drop_last(), unlocked.drop_last(), now);
    }
}

/// Strict decrease: once time passes the unlock of a non-empty entry that
/// was still locked, the locked sum falls by at least that entry.
pub proof fn lemma_locked_sum_strict_drop(
    locked: Seq<u128>,
    unlocked: Seq<u64>,
    t1: u64,
    t2: u64,
    i: int,
)
    requires
        unlocked.len() == locked.len(),
        0 <= i < locked.len(),
        t1 <= t2,
        unlocked[i] > t1,
        unlocked[i] <= t2,
    ensures
        locked_sum(locked, unlocked, t2) <= locked_sum(locked, unlocked, t1) - locked[i],
    decreases locked.len(),
{
    let n = locked.len() - 1;
    if i == n {
        lemma_locked_sum_antitone(locked.drop_last(), unlocked.drop_last(), t1, t2);
    } else {
        lemma_locked_sum_strict_drop(locked.drop_last(), unlocked.drop_last(), t1, t2, i);
        assert(locked.drop_last()[i] == locked[i]);
    }
}

/// The locked sum never exceeds the sum of all entries.
pub proof fn lemma_locked_sum_le_entry_sum(locked: Seq<u128>, unlocked: Seq<u64>, now: u64)
    ensures
        locked_sum(locked, unlocked, now) <= entry_sum(locked),
    decreases locked.len(),
{
    if locked.len() > 0 {
        lemma_locked_sum_le_entry_sum(locked.drop_last(), unlocked.drop_last(), now);
    }
}

/// The locked total of a schedule at `now`: the sum of every entry whose
/// unlock time is still in the future. Fails only where that sum does not
/// fit in a `u128`.
pub fn locked_amount_of(locked: &Vec<u128>, unlocked: &Vec<u64>, now: u64) -> (r: Result<
    u128,
    StakingError,
>)
    requires
        locked@.len() == unlocked@.len(),
    ensures
        r is Ok ==> r->Ok_0 == locked_sum(locked@, unlocked@, now),
        r is Err ==> locked_sum(locked@, unlocked@, now) > u128::MAX && r->Err_0
            == StakingError::Arithmetic,
{
    let mut acc: u128 = 0;
    let mut i: usize = 0;
    while i < locked.len()
        invariant
            i <= locked.len(),
            locked@.len() == unlocked@.len(),
            acc == locked_sum(locked@.take(i as int), unlocked@.take(i as int), now),
        decreases locked.len() - i,
    {
        if unlocked[i] > now {
            acc = match acc.checked_add(locked[i]) {
                Option::Some(v) => v,
                Option::None => {
                    proof {
                        assert(locked@.take(i + 1).drop_last() =~= locked@.take(i as int));
                        assert(unlocked@.take(i + 1).drop_last() =~= unlocked@.take(i as int));
                        lemma_locked_sum_take_increases(
                            locked@,
                            unlocked@,
                            now,
                            i + 1,
                            locked@.len() as int,
                        );
                        assert(locked@.take(locked@.len() as int) =~= locked@);
                        assert(unlocked@.take(unlocked@.len() as int) =~= unlocked@);
                    }
                    return Err(StakingError::Arithmetic);
                },
            };
        }
        proof {
            assert(locked@.take(i + 1).drop_last() =~= locked@.take(i as int));
            assert(unlocked@.take(i + 1).drop_last() =~= unlocked@.take(i as int));
        }
        i = i + 1;
    }
    proof {
        assert(locked@.take(locked@.len() as int) =~= locked@);
        assert(unlocked@.take(unlocked@.len() as int) =~= unlocked@);
    }
    Ok(acc)
}

} // verus!
