//! The ledger's global laws, stated and proved over the spec-level
//! transitions that the executable operations are pinned to.
//!
//! Conservation: every aggregate farm total equals the sum of its
//! positions' fields, and every operation preserves that. Settlement is
//! idempotent and accrues nothing outside the reward window. Checkpoints
//! never move backwards: each operation's law says so without any
//! assumption on the injected time, so the guarantee composes by
//! transitivity over every sequence of operations. A position's locked
//! amount only falls with time, reaches zero after the last unlock, and
//! never exceeds its balance.
use vstd::prelude::*;

use crate::deposit::ensure_stake_farm;
use crate::deposit::lp_deposit_farm;
use crate::deposit::stake_index_of;
use crate::deposit::token_deposit_farm;
use crate::farm_info::FarmInfoView;
use crate::farm_info::lemma_sum_by_push;
use crate::farm_info::lemma_sum_by_update;
use crate::farm_info::sum_by;
use crate::internal::all_stakes_settle_ok;
use crate::internal::settle_added;
use crate::internal::settle_farm;
use crate::internal::settle_reward_add;
use crate::internal::settle_skip;
use crate::internal::settle_stake;
use crate::internal::settle_stake_add;
use crate::internal::settled_stakes;
use crate::internal::lemma_reward_delta_sum_nonneg;
use crate::internal::compounded_entries;
use crate::internal::lemma_settle_added_nonneg;
use crate::internal::reward_deltas_ok;
use crate::internal::reward_delta_sum;
use crate::internal::reward_entries_fit;
use crate::internal::reward_entry_delta;
use crate::internal::settle_lp_stake;
use crate::internal::settle_now;
use crate::internal::settle_reward_stake;
use crate::internal::settle_token_stake;
use crate::lock_schedule::locked_sum;
use crate::math::sec_of;
use crate::stake_info::StakeInfoView;
use crate::stake_info::claim_reward_farm;
use crate::stake_info::unstake_farm;
use vstd::arithmetic::div_mod::lemma_div_is_ordered;

verus! {

/// Two position sequences with pointwise-equal measures have equal sums.
pub proof fn lemma_sum_by_equal_pointwise(
    s1: Seq<StakeInfoView>,
    s2: Seq<StakeInfoView>,
    f: spec_fn(StakeInfoView) -> int,
)
    requires
        s1.len() == s2.len(),
        forall|i: int| 0 <= i < s1.len() ==> f(#[trigger] s2[i]) == f(s1[i]),
    ensures
        sum_by(s2, f) == sum_by(s1, f),
    decreases s1.len(),
{
    if s1.len() > 0 {
        lemma_sum_by_equal_pointwise(s1.drop_last(), s2.drop_last(), f);
    }
}

/// What a batch settlement does to each positional sum: balances and
/// weights of the token and LP classes are untouched, and the reward
/// balances grow in total by exactly what the batch adds to the farm's
/// total staked reward.
pub proof fn lemma_settled_stakes_sums(
    stakes: Seq<StakeInfoView>,
    token_type: u8,
    farm: FarmInfoView,
    snapshot: u128,
    now_t: u64,
)
    requires
        all_stakes_settle_ok(stakes, token_type, farm, snapshot, now_t),
    ensures
        sum_by(settled_stakes(stakes, token_type, farm, snapshot, now_t), |st: StakeInfoView| st.token_amount as int)
            == sum_by(stakes, |st: StakeInfoView| st.token_amount as int),
        sum_by(settled_stakes(stakes, token_type, farm, snapshot, now_t), |st: StakeInfoView| st.token_weight as int)
            == sum_by(stakes, |st: StakeInfoView| st.token_weight as int),
        sum_by(settled_stakes(stakes, token_type, farm, snapshot, now_t), |st: StakeInfoView| st.lp_share_amount as int)
            == sum_by(stakes, |st: StakeInfoView| st.lp_share_amount as int),
        sum_by(settled_stakes(stakes, token_type, farm, snapshot, now_t), |st: StakeInfoView| st.lp_share_weight as int)
            == sum_by(stakes, |st: StakeInfoView| st.lp_share_weight as int),
        sum_by(settled_stakes(stakes, token_type, farm, snapshot, now_t), |st: StakeInfoView| st.reward_amount as int)
            == sum_by(stakes, |st: StakeInfoView| st.reward_amount as int) + settle_added(
            stakes,
            token_type,
            farm,
            snapshot,
            now_t,
        ),
    decreases stakes.len(),
{
    let s2 = settled_stakes(stakes, token_type, farm, snapshot, now_t);
    if stakes.len() > 0 {
        assert forall|i: int| 0 <= i < stakes.drop_last().len() implies (#[trigger] settle_stake(
            stakes.drop_last()[i],
            token_type,
            farm,
            snapshot,
            now_t,
        )) is Some by {
            assert(stakes.drop_last()[i] == stakes[i]);
            assert(settle_stake(stakes[i], token_type, farm, snapshot, now_t) is Some);
        }
        lemma_settled_stakes_sums(stakes.drop_last(), token_type, farm, snapshot, now_t);
        assert(s2.drop_last() =~= settled_stakes(
            stakes.drop_last(),
            token_type,
            farm,
            snapshot,
            now_t,
        ));
        let n = stakes.len() - 1;
        let st = stakes.last();
        assert(st == stakes[n]);
        assert(settle_stake(stakes[n], token_type, farm, snapshot, now_t) is Some);
        let st2 = settle_stake(st, token_type, farm, snapshot, now_t)->0;
        assert(s2.last() == st2);
        if token_type == 2 && st.reward_amount != 0 {
            lemma_reward_delta_sum_nonneg(
                st.reward_locked,
                st.unlocked_at,
                st.claimed_reward_at,
                farm.reward_reward_rate,
                snapshot,
                now_t,
            );
        }
        assert(st2.token_amount == st.token_amount && st2.token_weight == st.token_weight
            && st2.lp_share_amount == st.lp_share_amount && st2.lp_share_weight
            == st.lp_share_weight && st2.reward_amount == st.reward_amount + settle_stake_add(
            st,
            token_type,
            farm,
            snapshot,
            now_t,
        ));
    }
}

/// Conservation through settlement: a consistent farm stays consistent
/// under any batch settlement.
pub proof fn lemma_settle_preserves_conservation(farm: FarmInfoView, token_type: u8, now: u64)
    requires
        farm.consistent(),
        settle_farm(farm, token_type, now) is Some,
    ensures
        settle_farm(farm, token_type, now)->0.consistent(),
{
    if !settle_skip(farm, token_type, now) {
        let now_t = crate::internal::settle_now(farm, now);
        lemma_settled_stakes_sums(
            farm.stake_infos,
            token_type,
            farm,
            farm.total_reward_amount,
            now_t,
        );
        crate::internal::lemma_settle_added_nonneg(
            farm.stake_infos,
            token_type,
            farm,
            farm.total_reward_amount,
            now_t,
        );
    }
}

/// Conservation through a token deposit: a consistent settled farm stays
/// consistent when a token deposit lands in it.
pub proof fn lemma_token_deposit_preserves_conservation(
    f1: FarmInfoView,
    sender: u64,
    amount: u128,
    lock_duration: u64,
    now: u64,
)
    requires
        f1.consistent(),
        token_deposit_farm(f1, sender, amount, lock_duration, now) is Some,
    ensures
        token_deposit_farm(f1, sender, amount, lock_duration, now)->0.consistent(),
{
    let f = ensure_stake_farm(f1, sender, now);
    if !crate::deposit::has_stake(f1.stake_infos, sender) {
        lemma_sum_by_push(
            f1.stake_infos,
            |st: StakeInfoView| st.token_amount as int,
            crate::stake_info::empty_stake(sender, now),
        );
        lemma_sum_by_push(
            f1.stake_infos,
            |st: StakeInfoView| st.token_weight as int,
            crate::stake_info::empty_stake(sender, now),
        );
        lemma_sum_by_push(
            f1.stake_infos,
            |st: StakeInfoView| st.lp_share_amount as int,
            crate::stake_info::empty_stake(sender, now),
        );
        lemma_sum_by_push(
            f1.stake_infos,
            |st: StakeInfoView| st.lp_share_weight as int,
            crate::stake_info::empty_stake(sender, now),
        );
        lemma_sum_by_push(
            f1.stake_infos,
            |st: StakeInfoView| st.reward_amount as int,
            crate::stake_info::empty_stake(sender, now),
        );
    }
    assert(f.consistent());
    let i = stake_index_of(f.stake_infos, sender);
    let f2 = token_deposit_farm(f1, sender, amount, lock_duration, now)->0;
    assert(0 <= i < f.stake_infos.len());
    lemma_sum_by_update(
        f.stake_infos,
        |st: StakeInfoView| st.token_amount as int,
        i,
        f2.stake_infos[i],
    );
    lemma_sum_by_update(
        f.stake_infos,
        |st: StakeInfoView| st.token_weight as int,
        i,
        f2.stake_infos[i],
    );
    lemma_sum_by_update(
        f.stake_infos,
        |st: StakeInfoView| st.lp_share_amount as int,
        i,
        f2.stake_infos[i],
    );
    lemma_sum_by_update(
        f.stake_infos,
        |st: StakeInfoView| st.lp_share_weight as int,
        i,
        f2.stake_infos[i],
    );
    lemma_sum_by_update(
        f.stake_infos,
        |st: StakeInfoView| st.reward_amount as int,
        i,
        f2.stake_infos[i],
    );
}

/// Conservation through an LP-share deposit.
pub proof fn lemma_lp_deposit_preserves_conservation(
    f1: FarmInfoView,
    sender: u64,
    amount: u128,
    lock_duration: u64,
    now: u64,
)
    requires
        f1.consistent(),
        lp_deposit_farm(f1, sender, amount, lock_duration, now) is Some,
    ensures
        lp_deposit_farm(f1, sender, amount, lock_duration, now)->0.consistent(),
{
    let f = ensure_stake_farm(f1, sender, now);
    if !crate::deposit::has_stake(f1.stake_infos, sender) {
        lemma_sum_by_push(
            f1.stake_infos,
            |st: StakeInfoView| st.token_amount as int,
            crate::stake_info::empty_stake(sender, now),
        );
        lemma_sum_by_push(
            f1.stake_infos,
            |st: StakeInfoView| st.token_weight as int,
            crate::stake_info::empty_stake(sender, now),
        );
        lemma_sum_by_push(
            f1.stake_infos,
            |st: StakeInfoView| st.lp_share_amount as int,
            crate::stake_info::empty_stake(sender, now),
        );
        lemma_sum_by_push(
            f1.stake_infos,
            |st: StakeInfoView| st.lp_share_weight as int,
            crate::stake_info::empty_stake(sender, now),
        );
        lemma_sum_by_push(
            f1.stake_infos,
            |st: StakeInfoView| st.reward_amount as int,
            crate::stake_info::empty_stake(sender, now),
        );
    }
    assert(f.consistent());
    let i = stake_index_of(f.stake_infos, sender);
    let f2 = lp_deposit_farm(f1, sender, amount, lock_duration, now)->0;
    assert(0 <= i < f.stake_infos.len());
    lemma_sum_by_update(
        f.stake_infos,
        |st: StakeInfoView| st.token_amount as int,
        i,
        f2.stake_infos[i],
    );
    lemma_sum_by_update(
        f.stake_infos,
        |st: StakeInfoView| st.token_weight as int,
        i,
        f2.stake_infos[i],
    );
    lemma_sum_by_update(
        f.stake_infos,
        |st: StakeInfoView| st.lp_share_amount as int,
        i,
        f2.stake_infos[i],
    );
    lemma_sum_by_update(
        f.stake_infos,
        |st: StakeInfoView| st.lp_share_weight as int,
        i,
        f2.stake_infos[i],
    );
    lemma_sum_by_update(
        f.stake_infos,
        |st: StakeInfoView| st.reward_amount as int,
        i,
        f2.stake_infos[i],
    );
}

/// Conservation through a claim: a consistent farm stays consistent when a
/// position's settled reward is claimed and re-staked.
pub proof fn lemma_claim_reward_preserves_conservation(
    farm: FarmInfoView,
    i: int,
    token_type: u8,
    now: u64,
)
    requires
        farm.consistent(),
        claim_reward_farm(farm, i, token_type, now) is Some,
        token_type == 0 || token_type == 1 ==> 0 <= i < farm.stake_infos.len(),
    ensures
        claim_reward_farm(farm, i, token_type, now)->0.consistent(),
{
    if token_type == 2 {
        lemma_settle_preserves_conservation(farm, 2, now);
    } else if token_type == 0 || token_type == 1 {
        let f1 = settle_farm(farm, token_type, now)->0;
        lemma_settle_preserves_conservation(farm, token_type, now);
        let f2 = settle_farm(f1, 2, now)->0;
        lemma_settle_preserves_conservation(f1, 2, now);
        let out = claim_reward_farm(farm, i, token_type, now)->0;
        lemma_sum_by_update(
            f2.stake_infos,
            |st: StakeInfoView| st.token_amount as int,
            i,
            out.stake_infos[i],
        );
        lemma_sum_by_update(
            f2.stake_infos,
            |st: StakeInfoView| st.token_weight as int,
            i,
            out.stake_infos[i],
        );
        lemma_sum_by_update(
            f2.stake_infos,
            |st: StakeInfoView| st.lp_share_amount as int,
            i,
            out.stake_infos[i],
        );
        lemma_sum_by_update(
            f2.stake_infos,
            |st: StakeInfoView| st.lp_share_weight as int,
            i,
            out.stake_infos[i],
        );
        lemma_sum_by_update(
            f2.stake_infos,
            |st: StakeInfoView| st.reward_amount as int,
            i,
            out.stake_infos[i],
        );
    }
}

/// Conservation through a withdrawal: a consistent farm stays consistent
/// when a position withdraws part of its unlocked balance.
pub proof fn lemma_unstake_preserves_conservation(
    farm: FarmInfoView,
    i: int,
    token_type: u8,
    amount: u128,
    now: u64,
)
    requires
        farm.consistent(),
        unstake_farm(farm, i, token_type, amount, now) is Some,
        token_type == 0 || token_type == 1 || token_type == 2 ==> 0 <= i
            < farm.stake_infos.len(),
    ensures
        unstake_farm(farm, i, token_type, amount, now)->0.consistent(),
{
    let f1 = settle_farm(farm, token_type, now)->0;
    lemma_settle_preserves_conservation(farm, token_type, now);
    let fs = crate::stake_info::unstake_settled_farm(farm, token_type, now)->0;
    if token_type == 0 || token_type == 1 {
        lemma_settle_preserves_conservation(f1, 2, now);
    }
    assert(fs.consistent());
    if token_type == 0 || token_type == 1 || token_type == 2 {
        let out = unstake_farm(farm, i, token_type, amount, now)->0;
        lemma_sum_by_update(
            fs.stake_infos,
            |st: StakeInfoView| st.token_amount as int,
            i,
            out.stake_infos[i],
        );
        lemma_sum_by_update(
            fs.stake_infos,
            |st: StakeInfoView| st.token_weight as int,
            i,
            out.stake_infos[i],
        );
        lemma_sum_by_update(
            fs.stake_infos,
            |st: StakeInfoView| st.lp_share_amount as int,
            i,
            out.stake_infos[i],
        );
        lemma_sum_by_update(
            fs.stake_infos,
            |st: StakeInfoView| st.lp_share_weight as int,
            i,
            out.stake_infos[i],
        );
        lemma_sum_by_update(
            fs.stake_infos,
            |st: StakeInfoView| st.reward_amount as int,
            i,
            out.stake_infos[i],
        );
    }
}


/// An earlier whole-second bucket means an earlier instant.
pub proof fn lemma_sec_strict(a: u64, b: u64)
    requires
        sec_of(a) < sec_of(b),
    ensures
        a < b,
{
    if a >= b {
        lemma_div_is_ordered(b as int, a as int, 1000);
    }
}

/// Every entry accrual being zero makes the compounding sum zero.
pub proof fn lemma_reward_delta_sum_zero(
    locked: Seq<u128>,
    unlocked: Seq<u64>,
    cp: u64,
    rate: u128,
    total_reward: u128,
    now_t: u64,
)
    requires
        unlocked.len() == locked.len(),
        forall|i: int|
            0 <= i < locked.len() ==> (#[trigger] reward_entry_delta(
                locked[i],
                unlocked[i],
                cp,
                rate,
                total_reward,
                now_t,
            )) == Some(0u128),
    ensures
        reward_delta_sum(locked, unlocked, cp, rate, total_reward, now_t) == 0,
    decreases locked.len(),
{
    if locked.len() > 0 {
        assert forall|i: int| 0 <= i < locked.drop_last().len() implies (
        #[trigger] reward_entry_delta(
            locked.drop_last()[i],
            unlocked.drop_last()[i],
            cp,
            rate,
            total_reward,
            now_t,
        )) == Some(0u128) by {
            assert(locked.drop_last()[i] == locked[i]);
            assert(unlocked.drop_last()[i] == unlocked[i]);
            assert(reward_entry_delta(locked[i], unlocked[i], cp, rate, total_reward, now_t)
                == Some(0u128));
        }
        lemma_reward_delta_sum_zero(
            locked.drop_last(),
            unlocked.drop_last(),
            cp,
            rate,
            total_reward,
            now_t,
        );
        let n = locked.len() - 1;
        assert(reward_entry_delta(locked[n], unlocked[n], cp, rate, total_reward, now_t) == Some(
            0u128,
        ));
    }
}

/// Once a position is settled up to `now_t`, settling it again up to the
/// same instant changes nothing and compounds nothing, whatever the rates
/// or totals of the second pass.
pub proof fn lemma_settle_reward_stake_again(
    st: StakeInfoView,
    rate: u128,
    total_reward: u128,
    now_t: u64,
    rate2: u128,
    total2: u128,
)
    requires
        st.wf(),
        settle_reward_stake(st, rate, total_reward, now_t) is Some,
    ensures
        ({
            let st2 = settle_reward_stake(st, rate, total_reward, now_t)->0;
            settle_reward_stake(st2, rate2, total2, now_t) == Some(st2)
                && settle_reward_add(st2, rate2, total2, now_t) == 0
        }),
{
    let st2 = settle_reward_stake(st, rate, total_reward, now_t)->0;
    if st.reward_amount == 0 {
        assert(st2 == st);
        assert(settle_reward_add(st2, rate2, total2, now_t) == 0);
    } else {
        let cp = st.claimed_reward_at;
        lemma_reward_delta_sum_nonneg(
            st.reward_locked,
            st.unlocked_at,
            cp,
            rate,
            total_reward,
            now_t,
        );
        assert(st2.reward_amount != 0);
        let cp2 = st2.claimed_reward_at;
        assert(cp2 >= now_t);
        assert(st2.reward_locked.len() == st.reward_locked.len());
        assert(st2.unlocked_at.len() == st2.reward_locked.len());
        assert forall|i: int| 0 <= i < st2.reward_locked.len() implies (
        #[trigger] reward_entry_delta(
            st2.reward_locked[i],
            st2.unlocked_at[i],
            cp2,
            rate2,
            total2,
            now_t,
        )) == Some(0u128) by {
            if st2.reward_locked[i] != 0 {
                let last = if sec_of(st2.unlocked_at[i]) < sec_of(now_t) {
                    st2.unlocked_at[i]
                } else {
                    now_t
                };
                assert(last <= cp2);
                lemma_div_is_ordered(last as int, cp2 as int, 1000);
                assert(sec_of(last) <= sec_of(cp2));
            }
        }
        lemma_reward_delta_sum_zero(
            st2.reward_locked,
            st2.unlocked_at,
            cp2,
            rate2,
            total2,
            now_t,
        );
        let st3 = settle_reward_stake(st2, rate2, total2, now_t)->0;
        assert(st3.reward_locked =~= st2.reward_locked) by {
            assert(st3.reward_locked == compounded_entries(
                st2.reward_locked,
                st2.unlocked_at,
                cp2,
                rate2,
                total2,
                now_t,
            ));
        }
        assert(st3.claimed_reward_at == cp2);
        assert(st3 =~= st2);
    }
}

/// A token-class settlement is idempotent at its settlement instant,
/// whatever the rate or total weight of the second pass.
pub proof fn lemma_settle_token_stake_again(
    st: StakeInfoView,
    rate: u128,
    total_weight: u128,
    now_t: u64,
    rate2: u128,
    total2: u128,
)
    requires
        settle_token_stake(st, rate, total_weight, now_t) is Some,
    ensures
        ({
            let st2 = settle_token_stake(st, rate, total_weight, now_t)->0;
            settle_token_stake(st2, rate2, total2, now_t) == Some(st2)
        }),
{
}

/// An LP-class settlement is idempotent at its settlement instant,
/// whatever the rate or total weight of the second pass.
pub proof fn lemma_settle_lp_stake_again(
    st: StakeInfoView,
    rate: u128,
    total_weight: u128,
    now_t: u64,
    rate2: u128,
    total2: u128,
)
    requires
        settle_lp_stake(st, rate, total_weight, now_t) is Some,
    ensures
        ({
            let st2 = settle_lp_stake(st, rate, total_weight, now_t)->0;
            settle_lp_stake(st2, rate2, total2, now_t) == Some(st2)
        }),
{
}

/// Idempotent settlement. Settling a farm a second time up to the same
/// effective instant is a complete no-op: it succeeds, pays nothing twice,
/// and leaves every claimable accumulator, every lock entry and every
/// checkpoint exactly as the first settlement left them. In particular a
/// repeated settlement with the same `now`, and any re-settlement once
/// `now` has passed the end of the reward window, changes nothing after
/// the first.
pub proof fn lemma_settle_farm_no_op_again(
    farm: FarmInfoView,
    token_type: u8,
    now1: u64,
    now2: u64,
)
    requires
        farm.wf(),
        farm.starting_at <= farm.ending_at,
        settle_farm(farm, token_type, now1) is Some,
        settle_now(farm, now2) == settle_now(farm, now1),
        settle_skip(farm, token_type, now2) == settle_skip(farm, token_type, now1),
    ensures
        ({
            let f1 = settle_farm(farm, token_type, now1)->0;
            settle_farm(f1, token_type, now2) == Some(f1)
        }),
{
    let f1 = settle_farm(farm, token_type, now1)->0;
    if settle_skip(farm, token_type, now1) {
        assert(f1 == farm);
    } else {
        let now_t = settle_now(farm, now1);
        let snapshot = farm.total_reward_amount;
        assert(!settle_skip(f1, token_type, now2));
        assert(settle_now(f1, now2) == now_t);
        let snap2 = f1.total_reward_amount;
        assert forall|i: int| 0 <= i < f1.stake_infos.len() implies (#[trigger] settle_stake(
            f1.stake_infos[i],
            token_type,
            f1,
            snap2,
            now_t,
        )) == Some(f1.stake_infos[i]) && settle_stake_add(
            f1.stake_infos[i],
            token_type,
            f1,
            snap2,
            now_t,
        ) == 0 by {
            assert(settle_stake(farm.stake_infos[i], token_type, farm, snapshot, now_t) is Some);
            assert(f1.stake_infos[i] == settle_stake(
                farm.stake_infos[i],
                token_type,
                farm,
                snapshot,
                now_t,
            )->0);
            if token_type == 0 {
                lemma_settle_token_stake_again(
                    farm.stake_infos[i],
                    farm.token_reward_rate,
                    farm.total_token_weight,
                    now_t,
                    f1.token_reward_rate,
                    f1.total_token_weight,
                );
            } else if token_type == 1 {
                lemma_settle_lp_stake_again(
                    farm.stake_infos[i],
                    farm.pool_reward_rate,
                    farm.total_lp_share_weight,
                    now_t,
                    f1.pool_reward_rate,
                    f1.total_lp_share_weight,
                );
            } else if token_type == 2 {
                lemma_settle_reward_stake_again(
                    farm.stake_infos[i],
                    farm.reward_reward_rate,
                    snapshot,
                    now_t,
                    f1.reward_reward_rate,
                    snap2,
                );
            }
        }
        assert forall|i: int| 0 <= i < f1.stake_infos.len() implies settle_stake_add(
            #[trigger] f1.stake_infos[i],
            token_type,
            f1,
            snap2,
            now_t,
        ) == 0 by {
            assert(settle_stake(f1.stake_infos[i], token_type, f1, snap2, now_t) == Some(
                f1.stake_infos[i],
            ));
        }
        assert(settle_added(f1.stake_infos, token_type, f1, snap2, now_t) == 0) by {
            lemma_settle_added_all_zero(f1.stake_infos, token_type, f1, snap2, now_t);
        }
        assert(settled_stakes(f1.stake_infos, token_type, f1, snap2, now_t) =~= f1.stake_infos);
        assert(settle_farm(f1, token_type, now2)->0 =~= f1);
    }
}

/// Per-position zero additions make the batch addition zero.
pub proof fn lemma_settle_added_all_zero(
    stakes: Seq<StakeInfoView>,
    token_type: u8,
    farm: FarmInfoView,
    snapshot: u128,
    now_t: u64,
)
    requires
        forall|i: int|
            0 <= i < stakes.len() ==> settle_stake_add(
                #[trigger] stakes[i],
                token_type,
                farm,
                snapshot,
                now_t,
            ) == 0,
    ensures
        settle_added(stakes, token_type, farm, snapshot, now_t) == 0,
    decreases stakes.len(),
{
    if stakes.len() > 0 {
        assert forall|i: int| 0 <= i < stakes.drop_last().len() implies settle_stake_add(
            #[trigger] stakes.drop_last()[i],
            token_type,
            farm,
            snapshot,
            now_t,
        ) == 0 by {
            assert(stakes.drop_last()[i] == stakes[i]);
        }
        lemma_settle_added_all_zero(stakes.drop_last(), token_type, farm, snapshot, now_t);
        let n = stakes.len() - 1;
        assert(settle_stake_add(stakes[n], token_type, farm, snapshot, now_t) == 0);
    }
}

/// No accrual before the window opens: settling at any instant before
/// `starting_at` is a no-op for every class.
pub proof fn lemma_settle_before_window(farm: FarmInfoView, token_type: u8, now: u64)
    requires
        now < farm.starting_at,
    ensures
        settle_farm(farm, token_type, now) == Some(farm),
{
}

/// Monotonic checkpoints through settlement: no claim checkpoint of any
/// position ever moves backwards.
pub proof fn lemma_settle_checkpoints_monotone(farm: FarmInfoView, token_type: u8, now: u64)
    requires
        settle_farm(farm, token_type, now) is Some,
    ensures
        ({
            let f1 = settle_farm(farm, token_type, now)->0;
            forall|i: int|
                0 <= i < farm.stake_infos.len() ==> ((#[trigger] f1.stake_infos[
                    i
                ]).claimed_token_at >= farm.stake_infos[i].claimed_token_at
                    && f1.stake_infos[i].claimed_lp_at >= farm.stake_infos[i].claimed_lp_at
                    && f1.stake_infos[i].claimed_reward_at >= farm.stake_infos[
                    i
                ].claimed_reward_at)
        }),
{
    let f1 = settle_farm(farm, token_type, now)->0;
    if !settle_skip(farm, token_type, now) {
        let now_t = settle_now(farm, now);
        let snapshot = farm.total_reward_amount;
        assert forall|i: int| 0 <= i < farm.stake_infos.len() implies ((
        #[trigger] f1.stake_infos[i]).claimed_token_at >= farm.stake_infos[i].claimed_token_at
            && f1.stake_infos[i].claimed_lp_at >= farm.stake_infos[i].claimed_lp_at
            && f1.stake_infos[i].claimed_reward_at >= farm.stake_infos[i].claimed_reward_at) by {
            let st = farm.stake_infos[i];
            assert(settle_stake(st, token_type, farm, snapshot, now_t) is Some);
            assert(f1.stake_infos[i] == settle_stake(st, token_type, farm, snapshot, now_t)->0);
            if token_type == 0 && st.token_weight != 0 && sec_of(now_t) > sec_of(
                st.claimed_token_at,
            ) {
                lemma_sec_strict(st.claimed_token_at, now_t);
            }
            if token_type == 1 && st.lp_share_weight != 0 && sec_of(now_t) > sec_of(
                st.claimed_lp_at,
            ) {
                lemma_sec_strict(st.claimed_lp_at, now_t);
            }
        }
    }
}

/// Compounding grows the locked part of a schedule by no more than the
/// whole compounded sum.
pub proof fn lemma_compounded_locked_le(
    locked: Seq<u128>,
    unlocked: Seq<u64>,
    cp: u64,
    rate: u128,
    total_reward: u128,
    now_t: u64,
    t: u64,
)
    requires
        unlocked.len() == locked.len(),
        reward_entries_fit(locked, unlocked, cp, rate, total_reward, now_t),
    ensures
        locked_sum(compounded_entries(locked, unlocked, cp, rate, total_reward, now_t), unlocked, t)
            <= locked_sum(locked, unlocked, t) + reward_delta_sum(
            locked,
            unlocked,
            cp,
            rate,
            total_reward,
            now_t,
        ),
    decreases locked.len(),
{
    let comp = compounded_entries(locked, unlocked, cp, rate, total_reward, now_t);
    if locked.len() > 0 {
        assert forall|i: int| 0 <= i < locked.drop_last().len() implies locked.drop_last()[i] + (
        #[trigger] reward_entry_delta(
            locked.drop_last()[i],
            unlocked.drop_last()[i],
            cp,
            rate,
            total_reward,
            now_t,
        ))->0 <= u128::MAX by {
            assert(locked.drop_last()[i] == locked[i]);
            assert(unlocked.drop_last()[i] == unlocked[i]);
            assert(locked[i] + reward_entry_delta(
                locked[i],
                unlocked[i],
                cp,
                rate,
                total_reward,
                now_t,
            )->0 <= u128::MAX);
        }
        lemma_compounded_locked_le(
            locked.drop_last(),
            unlocked.drop_last(),
            cp,
            rate,
            total_reward,
            now_t,
            t,
        );
        assert(comp.drop_last() =~= compounded_entries(
            locked.drop_last(),
            unlocked.drop_last(),
            cp,
            rate,
            total_reward,
            now_t,
        ));
        let n = locked.len() - 1;
        assert(locked[n] + reward_entry_delta(
            locked[n],
            unlocked[n],
            cp,
            rate,
            total_reward,
            now_t,
        )->0 <= u128::MAX);
        assert(comp.last() == (locked[n] + reward_entry_delta(
            locked[n],
            unlocked[n],
            cp,
            rate,
            total_reward,
            now_t,
        )->0) as u128);
    }
}

/// Lock correctness through reward settlement: a position whose locked
/// reward is within its reward balance stays that way when it is settled
/// up to the same instant.
pub proof fn lemma_settle_reward_preserves_lock_bound(
    st: StakeInfoView,
    rate: u128,
    total_reward: u128,
    now_t: u64,
)
    requires
        st.wf(),
        settle_reward_stake(st, rate, total_reward, now_t) is Some,
        locked_sum(st.reward_locked, st.unlocked_at, now_t) <= st.reward_amount,
    ensures
        ({
            let st2 = settle_reward_stake(st, rate, total_reward, now_t)->0;
            locked_sum(st2.reward_locked, st2.unlocked_at, now_t) <= st2.reward_amount
        }),
{
    if st.reward_amount != 0 {
        lemma_compounded_locked_le(
            st.reward_locked,
            st.unlocked_at,
            st.claimed_reward_at,
            rate,
            total_reward,
            now_t,
            now_t,
        );
    }
}

/// Lock correctness through a deposit: appending a fresh lock entry of the
/// deposited amount keeps the locked part within the grown balance.
pub proof fn lemma_deposit_preserves_lock_bound(
    locked: Seq<u128>,
    unlocked: Seq<u64>,
    balance: u128,
    amount: u128,
    unlock: u64,
    now: u64,
)
    requires
        locked_sum(locked, unlocked, now) <= balance,
    ensures
        locked_sum(locked.push(amount), unlocked.push(unlock), now) <= balance + amount,
{
    assert(locked.push(amount).drop_last() =~= locked);
    assert(unlocked.push(unlock).drop_last() =~= unlocked);
}


/// Monotonic checkpoints through a token deposit: the depositor's token
/// checkpoint moves to `now` and no checkpoint of any position ever moves
/// backwards.
pub proof fn lemma_token_deposit_checkpoints_monotone(
    f1: FarmInfoView,
    sender: u64,
    amount: u128,
    lock_duration: u64,
    now: u64,
)
    requires
        f1.wf(),
        token_deposit_farm(f1, sender, amount, lock_duration, now) is Some,
    ensures
        ({
            let f2 = token_deposit_farm(f1, sender, amount, lock_duration, now)->0;
            &&& f2.stake_infos.len() >= f1.stake_infos.len()
            &&& forall|i: int|
                0 <= i < f1.stake_infos.len() ==> ((#[trigger] f2.stake_infos[
                    i
                ]).claimed_token_at >= f1.stake_infos[i].claimed_token_at && f2.stake_infos[
                    i
                ].claimed_lp_at == f1.stake_infos[i].claimed_lp_at && f2.stake_infos[
                    i
                ].claimed_reward_at == f1.stake_infos[i].claimed_reward_at)
        }),
{
    let f = ensure_stake_farm(f1, sender, now);
    if !crate::deposit::has_stake(f1.stake_infos, sender) {
        assert(f.stake_infos[f1.stake_infos.len() as int].owner_id == sender);
    }
    assert(crate::deposit::has_stake(f.stake_infos, sender));
    let j = stake_index_of(f.stake_infos, sender);
    assert(0 <= j < f.stake_infos.len() && f.stake_infos[j].owner_id == sender);
}

/// Monotonic checkpoints through an LP deposit, as the token-deposit law
/// but on the LP checkpoint.
pub proof fn lemma_lp_deposit_checkpoints_monotone(
    f1: FarmInfoView,
    sender: u64,
    amount: u128,
    lock_duration: u64,
    now: u64,
)
    requires
        f1.wf(),
        lp_deposit_farm(f1, sender, amount, lock_duration, now) is Some,
    ensures
        ({
            let f2 = lp_deposit_farm(f1, sender, amount, lock_duration, now)->0;
            &&& f2.stake_infos.len() >= f1.stake_infos.len()
            &&& forall|i: int|
                0 <= i < f1.stake_infos.len() ==> ((#[trigger] f2.stake_infos[i]).claimed_lp_at
                    >= f1.stake_infos[i].claimed_lp_at && f2.stake_infos[i].claimed_token_at
                    == f1.stake_infos[i].claimed_token_at && f2.stake_infos[i].claimed_reward_at
                    == f1.stake_infos[i].claimed_reward_at)
        }),
{
    let f = ensure_stake_farm(f1, sender, now);
    if !crate::deposit::has_stake(f1.stake_infos, sender) {
        assert(f.stake_infos[f1.stake_infos.len() as int].owner_id == sender);
    }
    assert(crate::deposit::has_stake(f.stake_infos, sender));
    let j = stake_index_of(f.stake_infos, sender);
    assert(0 <= j < f.stake_infos.len() && f.stake_infos[j].owner_id == sender);
}


/// No accrual after the window closes: once a farm is settled at or past
/// `ending_at`, any further settlement at or past `ending_at` is a
/// complete no-op.
pub proof fn lemma_settle_after_window_no_op(
    farm: FarmInfoView,
    token_type: u8,
    now1: u64,
    now2: u64,
)
    requires
        farm.wf(),
        farm.starting_at <= farm.ending_at,
        farm.ending_at <= now1,
        farm.ending_at <= now2,
        settle_farm(farm, token_type, now1) is Some,
    ensures
        ({
            let f1 = settle_farm(farm, token_type, now1)->0;
            settle_farm(f1, token_type, now2) == Some(f1)
        }),
{
    assert(settle_now(farm, now2) == farm.ending_at);
    assert(settle_now(farm, now1) == farm.ending_at);
    lemma_settle_farm_no_op_again(farm, token_type, now1, now2);
}

/// Monotonic checkpoints through a claim: no checkpoint of any position
/// ever moves backwards.
pub proof fn lemma_claim_reward_checkpoints_monotone(
    farm: FarmInfoView,
    i: int,
    token_type: u8,
    now: u64,
)
    requires
        farm.wf(),
        token_type == 0 || token_type == 1,
        0 <= i < farm.stake_infos.len(),
        claim_reward_farm(farm, i, token_type, now) is Some,
    ensures
        ({
            let out = claim_reward_farm(farm, i, token_type, now)->0;
            forall|j: int|
                0 <= j < farm.stake_infos.len() ==> ((#[trigger] out.stake_infos[
                    j
                ]).claimed_token_at >= farm.stake_infos[j].claimed_token_at && out.stake_infos[
                    j
                ].claimed_lp_at >= farm.stake_infos[j].claimed_lp_at && out.stake_infos[
                    j
                ].claimed_reward_at >= farm.stake_infos[j].claimed_reward_at)
        }),
{
    let f1 = settle_farm(farm, token_type, now)->0;
    lemma_settle_checkpoints_monotone(farm, token_type, now);
    crate::internal::lemma_settle_farm_shape(farm, token_type, now);
    let f2 = settle_farm(f1, 2, now)->0;
    lemma_settle_checkpoints_monotone(f1, 2, now);
    crate::internal::lemma_settle_farm_shape(f1, 2, now);
    let out = claim_reward_farm(farm, i, token_type, now)->0;
    assert forall|j: int| 0 <= j < farm.stake_infos.len() implies ((#[trigger] out.stake_infos[
        j
    ]).claimed_token_at >= farm.stake_infos[j].claimed_token_at && out.stake_infos[
        j
    ].claimed_lp_at >= farm.stake_infos[j].claimed_lp_at && out.stake_infos[
        j
    ].claimed_reward_at >= farm.stake_infos[j].claimed_reward_at) by {
        if j != i {
            assert(out.stake_infos[j] == f2.stake_infos[j]);
        } else {
            assert(out.stake_infos[i].claimed_reward_at == f2.stake_infos[i].claimed_reward_at);
        }
    }
}


/// Conservation of the reward total alone: where the farm's total staked
/// reward equals the sum of the positions' reward balances before a batch
/// settlement, the total's increase equals the sum of the positions'
/// increases, so the equality holds afterwards as well. This needs nothing
/// of the other totals.
pub proof fn lemma_settle_preserves_reward_sum(farm: FarmInfoView, token_type: u8, now: u64)
    requires
        farm.total_reward_amount == sum_by(
            farm.stake_infos,
            |st: StakeInfoView| st.reward_amount as int,
        ),
        settle_farm(farm, token_type, now) is Some,
    ensures
        ({
            let f1 = settle_farm(farm, token_type, now)->0;
            f1.total_reward_amount == sum_by(
                f1.stake_infos,
                |st: StakeInfoView| st.reward_amount as int,
            )
        }),
{
    if !settle_skip(farm, token_type, now) {
        let now_t = settle_now(farm, now);
        lemma_settled_stakes_sums(
            farm.stake_infos,
            token_type,
            farm,
            farm.total_reward_amount,
            now_t,
        );
        lemma_settle_added_nonneg(
            farm.stake_infos,
            token_type,
            farm,
            farm.total_reward_amount,
            now_t,
        );
    }
}

/// Past the end of the reward window the claimable-amount view stands
/// still: querying at any instant at or past `ending_at` reports exactly
/// what a query at `ending_at` reports.
pub proof fn lemma_pending_claim_clamped(
    farm: FarmInfoView,
    st: StakeInfoView,
    token_type: u8,
    t: u64,
)
    requires
        farm.starting_at <= farm.ending_at,
        t >= farm.ending_at,
    ensures
        crate::internal::pending_claim(farm, st, token_type, t)
            == crate::internal::pending_claim(farm, st, token_type, farm.ending_at),
{
    assert(settle_now(farm, t) == farm.ending_at);
    assert(settle_now(farm, farm.ending_at) == farm.ending_at);
}


/// Monotonic checkpoints through a withdrawal: the debit touches no
/// checkpoint, so none of any position ever moves backwards.
pub proof fn lemma_unstake_checkpoints_monotone(
    farm: FarmInfoView,
    i: int,
    token_type: u8,
    amount: u128,
    now: u64,
)
    requires
        farm.wf(),
        0 <= i < farm.stake_infos.len(),
        unstake_farm(farm, i, token_type, amount, now) is Some,
    ensures
        ({
            let out = unstake_farm(farm, i, token_type, amount, now)->0;
            forall|j: int|
                0 <= j < farm.stake_infos.len() ==> ((#[trigger] out.stake_infos[
                    j
                ]).claimed_token_at >= farm.stake_infos[j].claimed_token_at && out.stake_infos[
                    j
                ].claimed_lp_at >= farm.stake_infos[j].claimed_lp_at && out.stake_infos[
                    j
                ].claimed_reward_at >= farm.stake_infos[j].claimed_reward_at)
        }),
{
    let f1 = settle_farm(farm, token_type, now)->0;
    lemma_settle_checkpoints_monotone(farm, token_type, now);
    crate::internal::lemma_settle_farm_shape(farm, token_type, now);
    let fs = crate::stake_info::unstake_settled_farm(farm, token_type, now)->0;
    if token_type == 0 || token_type == 1 {
        lemma_settle_checkpoints_monotone(f1, 2, now);
        crate::internal::lemma_settle_farm_shape(f1, 2, now);
    }
    let out = unstake_farm(farm, i, token_type, amount, now)->0;
    assert forall|j: int| 0 <= j < farm.stake_infos.len() implies ((#[trigger] out.stake_infos[
        j
    ]).claimed_token_at >= farm.stake_infos[j].claimed_token_at && out.stake_infos[
        j
    ].claimed_lp_at >= farm.stake_infos[j].claimed_lp_at && out.stake_infos[j].claimed_reward_at
        >= farm.stake_infos[j].claimed_reward_at) by {
        if j != i {
            assert(out.stake_infos[j] == fs.stake_infos[j]);
        } else {
            assert(out.stake_infos[i].claimed_token_at == fs.stake_infos[i].claimed_token_at);
            assert(out.stake_infos[i].claimed_lp_at == fs.stake_infos[i].claimed_lp_at);
            assert(out.stake_infos[i].claimed_reward_at == fs.stake_infos[i].claimed_reward_at);
        }
    }
}

} // verus!
