//! The reward accrual engine.
//!
//! Settlement moves reward earned since a position's last checkpoint into
//! its claimable accumulator and advances the checkpoint. The token and LP
//! classes accrue on a weight share of the farm's emission rate; the reward
//! class compounds each still-open lock entry linearly and in place. A
//! settlement time is first clamped into the farm's reward window: before
//! `starting_at` nothing accrues, after `ending_at` time stands still.
//!
//! Every function here is two-phase: it computes a fresh value and only the
//! caller commits it, so a checked-arithmetic failure anywhere leaves the
//! ledger untouched.
use vstd::prelude::*;

use crate::errors::StakingError;
use crate::math::ACCRUAL_LP_SCALE;
use crate::math::ACCRUAL_REWARD_SCALE;
use crate::math::ACCRUAL_TOKEN_SCALE;
use crate::math::accrual_delta;
use crate::math::accrual_delta_spec;
use crate::math::ck_add;
use crate::math::sec_of;
use crate::farm_info::FarmInfo;
use crate::farm_info::FarmInfoView;
use crate::farm_info::copy_farm_info;
use crate::stake_info::StakeInfo;
use crate::stake_info::StakeInfoView;
use crate::stake_info::copy_stake_info;

verus! {

/// Token-class settlement of one position: if the position carries token
/// weight and at least one whole second has passed since its token
/// checkpoint, the weight-share accrual for the elapsed ticks is added to
/// its claimable accumulator and the checkpoint advances to `now_t`;
/// otherwise the position is unchanged (for a zero weight the accrual
/// formula's value is zero, so skipping it adds the same nothing without
/// touching the pool's total weight as a divisor). `None` marks a
/// checked-arithmetic failure.
pub open spec fn settle_token_stake(
    st: StakeInfoView,
    rate: u128,
    total_weight: u128,
    now_t: u64,
) -> Option<StakeInfoView> {
    if st.token_weight != 0 && sec_of(now_t) > sec_of(st.claimed_token_at) {
        let dt = (sec_of(now_t) - sec_of(st.claimed_token_at)) as u128;
        match ck_add(
            accrual_delta_spec(st.token_weight, ACCRUAL_TOKEN_SCALE, rate, total_weight, dt),
            st.reward_token_to_claim,
        ) {
            Option::None => Option::None,
            Option::Some(v) => Option::Some(
                StakeInfoView { reward_token_to_claim: v, claimed_token_at: now_t, ..st },
            ),
        }
    } else {
        Option::Some(st)
    }
}

/// LP-class settlement of one position, as `settle_token_stake` but on the
/// LP balance, weight and checkpoint, at the LP accrual scale.
pub open spec fn settle_lp_stake(
    st: StakeInfoView,
    rate: u128,
    total_weight: u128,
    now_t: u64,
) -> Option<StakeInfoView> {
    if st.lp_share_weight != 0 && sec_of(now_t) > sec_of(st.claimed_lp_at) {
        let dt = (sec_of(now_t) - sec_of(st.claimed_lp_at)) as u128;
        match ck_add(
            accrual_delta_spec(st.lp_share_weight, ACCRUAL_LP_SCALE, rate, total_weight, dt),
            st.reward_lp_to_claim,
        ) {
            Option::None => Option::None,
            Option::Some(v) => Option::Some(
                StakeInfoView { reward_lp_to_claim: v, claimed_lp_at: now_t, ..st },
            ),
        }
    } else {
        Option::Some(st)
    }
}

/// The compounding accrual of one reward lock entry: zero for an empty or
/// already-settled entry, otherwise the linear accrual from the reward
/// checkpoint `cp` up to `min(now_t, unlock)`, in whole-second ticks, on the
/// entry's own locked amount against the farm's total staked reward.
pub open spec fn reward_entry_delta(
    locked: u128,
    unlock: u64,
    cp: u64,
    rate: u128,
    total_reward: u128,
    now_t: u64,
) -> Option<u128> {
    if locked == 0 {
        Option::Some(0u128)
    } else {
        let last = if sec_of(unlock) < sec_of(now_t) {
            unlock
        } else {
            now_t
        };
        if sec_of(last) <= sec_of(cp) {
            Option::Some(0u128)
        } else {
            accrual_delta_spec(
                locked,
                ACCRUAL_REWARD_SCALE,
                rate,
                total_reward,
                (sec_of(last) - sec_of(cp)) as u128,
            )
        }
    }
}

/// Every entry's compounding accrual is free of checked-arithmetic failure.
pub open spec fn reward_deltas_ok(
    locked: Seq<u128>,
    unlocked: Seq<u64>,
    cp: u64,
    rate: u128,
    total_reward: u128,
    now_t: u64,
) -> bool {
    forall|i: int|
        0 <= i < locked.len() ==> (#[trigger] reward_entry_delta(
            locked[i],
            unlocked[i],
            cp,
            rate,
            total_reward,
            now_t,
        )) is Some
}

/// Each entry still fits in a `u128` after its accrual is compounded into
/// it.
pub open spec fn reward_entries_fit(
    locked: Seq<u128>,
    unlocked: Seq<u64>,
    cp: u64,
    rate: u128,
    total_reward: u128,
    now_t: u64,
) -> bool {
    forall|i: int|
        0 <= i < locked.len() ==> locked[i] + (#[trigger] reward_entry_delta(
            locked[i],
            unlocked[i],
            cp,
            rate,
            total_reward,
            now_t,
        ))->0 <= u128::MAX
}

/// The sum of the compounding accruals of all entries.
pub open spec fn reward_delta_sum(
    locked: Seq<u128>,
    unlocked: Seq<u64>,
    cp: u64,
    rate: u128,
    total_reward: u128,
    now_t: u64,
) -> int
    decreases locked.len(),
{
    if locked.len() == 0 {
        0
    } else {
        reward_delta_sum(locked.drop_last(), unlocked.drop_last(), cp, rate, total_reward, now_t)
            + reward_entry_delta(
            locked.last(),
            unlocked[locked.len() - 1],
            cp,
            rate,
            total_reward,
            now_t,
        )->0
    }
}

/// A compounding sum is never negative.
pub proof fn lemma_reward_delta_sum_nonneg(
    locked: Seq<u128>,
    unlocked: Seq<u64>,
    cp: u64,
    rate: u128,
    total_reward: u128,
    now_t: u64,
)
    ensures
        reward_delta_sum(locked, unlocked, cp, rate, total_reward, now_t) >= 0,
    decreases locked.len(),
{
    if locked.len() > 0 {
        lemma_reward_delta_sum_nonneg(
            locked.drop_last(),
            unlocked.drop_last(),
            cp,
            rate,
            total_reward,
            now_t,
        );
    }
}

/// Extending a prefix never shrinks the compounding sum.
pub proof fn lemma_reward_delta_sum_take_le(
    locked: Seq<u128>,
    unlocked: Seq<u64>,
    cp: u64,
    rate: u128,
    total_reward: u128,
    now_t: u64,
    i: int,
    j: int,
)
    requires
        0 <= i <= j <= locked.len(),
        unlocked.len() == locked.len(),
    ensures
        reward_delta_sum(locked.take(i), unlocked.take(i), cp, rate, total_reward, now_t)
            <= reward_delta_sum(locked.take(j), unlocked.take(j), cp, rate, total_reward, now_t),
    decreases j - i,
{
    if i < j {
        lemma_reward_delta_sum_take_le(locked, unlocked, cp, rate, total_reward, now_t, i, j - 1);
        assert(locked.take(j).drop_last() =~= locked.take(j - 1));
        assert(unlocked.take(j).drop_last() =~= unlocked.take(j - 1));
    }
}

/// The reward lock entries after compounding: each grows by its own accrual.
pub open spec fn compounded_entries(
    locked: Seq<u128>,
    unlocked: Seq<u64>,
    cp: u64,
    rate: u128,
    total_reward: u128,
    now_t: u64,
) -> Seq<u128> {
    Seq::new(
        locked.len(),
        |i: int|
            (locked[i] + reward_entry_delta(
                locked[i],
                unlocked[i],
                cp,
                rate,
                total_reward,
                now_t,
            )->0) as u128,
    )
}

/// Reward-class settlement of one position: if the position holds earned
/// reward, every still-open lock entry accrues linearly up to
/// `min(now_t, unlock)`, the accrual compounds into the entry itself and
/// into the position's reward balance, and the reward checkpoint advances
/// to `now_t` (never backwards: a checkpoint is monotonically
/// non-decreasing); otherwise the position is unchanged. `None` marks a
/// checked-arithmetic failure anywhere in the pass.
pub open spec fn settle_reward_stake(
    st: StakeInfoView,
    rate: u128,
    total_reward: u128,
    now_t: u64,
) -> Option<StakeInfoView> {
    if st.reward_amount != 0 {
        let cp = st.claimed_reward_at;
        let sum = reward_delta_sum(st.reward_locked, st.unlocked_at, cp, rate, total_reward, now_t);
        if reward_deltas_ok(st.reward_locked, st.unlocked_at, cp, rate, total_reward, now_t)
            && reward_entries_fit(st.reward_locked, st.unlocked_at, cp, rate, total_reward, now_t)
            && sum <= u128::MAX && st.reward_amount + sum <= u128::MAX {
            Option::Some(
                StakeInfoView {
                    reward_locked: compounded_entries(
                        st.reward_locked,
                        st.unlocked_at,
                        cp,
                        rate,
                        total_reward,
                        now_t,
                    ),
                    reward_amount: (st.reward_amount + sum) as u128,
                    claimed_reward_at: if now_t > cp {
                        now_t
                    } else {
                        cp
                    },
                    ..st
                },
            )
        } else {
            Option::None
        }
    } else {
        Option::Some(st)
    }
}

/// How much the farm's total staked reward grows when this position is
/// settled for the reward class.
pub open spec fn settle_reward_add(
    st: StakeInfoView,
    rate: u128,
    total_reward: u128,
    now_t: u64,
) -> int {
    if st.reward_amount != 0 {
        reward_delta_sum(
            st.reward_locked,
            st.unlocked_at,
            st.claimed_reward_at,
            rate,
            total_reward,
            now_t,
        )
    } else {
        0
    }
}

/// Executable reward-class settlement. Returns the settled position and the
/// amount newly compounded into it, without committing either.
pub fn settle_reward_value(st: &StakeInfo, rate: u128, total_reward: u128, now_t: u64) -> (r:
    Result<(StakeInfo, u128), StakingError>)
    requires
        st@.wf(),
    ensures
        r is Ok ==> settle_reward_stake(st@, rate, total_reward, now_t) == Some(r->Ok_0.0@)
            && r->Ok_0.1 == settle_reward_add(st@, rate, total_reward, now_t),
        r is Err ==> settle_reward_stake(st@, rate, total_reward, now_t) is None && r->Err_0
            == StakingError::Arithmetic,
{
    if st.reward_amount == 0 {
        let new_st = copy_stake_info(st);
        return Ok((new_st, 0));
    }
    let ghost g_locked = st@.reward_locked;
    let ghost g_unlocked = st@.unlocked_at;
    let cp = st.claimed_reward_at;
    let mut new_locked: Vec<u128> = Vec::new();
    let mut sum: u128 = 0;
    let mut i: usize = 0;
    while i < st.unlocked_at.len()
        invariant
            st@.wf(),
            st.reward_amount != 0,
            cp == st.claimed_reward_at,
            g_locked == st@.reward_locked,
            g_unlocked == st@.unlocked_at,
            i <= g_locked.len(),
            new_locked@.len() == i,
            forall|j: int|
                0 <= j < i ==> (#[trigger] reward_entry_delta(
                    g_locked[j],
                    g_unlocked[j],
                    cp,
                    rate,
                    total_reward,
                    now_t,
                )) is Some,
            forall|j: int|
                0 <= j < i ==> g_locked[j] + (#[trigger] reward_entry_delta(
                    g_locked[j],
                    g_unlocked[j],
                    cp,
                    rate,
                    total_reward,
                    now_t,
                ))->0 <= u128::MAX,
            forall|j: int|
                0 <= j < i ==> new_locked@[j] == (g_locked[j] + (#[trigger] reward_entry_delta(
                    g_locked[j],
                    g_unlocked[j],
                    cp,
                    rate,
                    total_reward,
                    now_t,
                ))->0) as u128,
            sum == reward_delta_sum(
                g_locked.take(i as int),
                g_unlocked.take(i as int),
                cp,
                rate,
                total_reward,
                now_t,
            ),
        decreases g_locked.len() - i,
    {
        let locked_i = st.reward_locked[i];
        let unlock_i = st.unlocked_at[i];
        let mut delta: u128 = 0;
        if locked_i != 0 {
            let last_time: u64 = if unlock_i / 1000 < now_t / 1000 {
                unlock_i
            } else {
                now_t
            };
            if last_time / 1000 > cp / 1000 {
                let dt: u64 = last_time / 1000 - cp / 1000;
                delta = match accrual_delta(
                    locked_i,
                    ACCRUAL_REWARD_SCALE,
                    rate,
                    total_reward,
                    dt as u128,
                ) {
                    Ok(v) => v,
                    Err(e) => { return Err(e) },
                };
            }
        }
        assert(reward_entry_delta(g_locked[i as int], g_unlocked[i as int], cp, rate, total_reward, now_t)
            == Some(delta));
        sum = match sum.checked_add(delta) {
            Option::Some(v) => v,
            Option::None => {
                proof {
                    assert(g_locked.take(i + 1).drop_last() =~= g_locked.take(i as int));
                    assert(g_unlocked.take(i + 1).drop_last() =~= g_unlocked.take(i as int));
                    lemma_reward_delta_sum_take_le(
                        g_locked,
                        g_unlocked,
                        cp,
                        rate,
                        total_reward,
                        now_t,
                        i + 1,
                        g_locked.len() as int,
                    );
                    assert(g_locked.take(g_locked.len() as int) =~= g_locked);
                    assert(g_unlocked.take(g_unlocked.len() as int) =~= g_unlocked);
                }
                return Err(StakingError::Arithmetic);
            },
        };
        let new_entry = match locked_i.checked_add(delta) {
            Option::Some(v) => v,
            Option::None => { return Err(StakingError::Arithmetic) },
        };
        new_locked.push(new_entry);
        proof {
            assert(g_locked.take(i + 1).drop_last() =~= g_locked.take(i as int));
            assert(g_unlocked.take(i + 1).drop_last() =~= g_unlocked.take(i as int));
        }
        i = i + 1;
    }
    proof {
        assert(g_locked.take(g_locked.len() as int) =~= g_locked);
        assert(g_unlocked.take(g_unlocked.len() as int) =~= g_unlocked);
    }
    let new_amount = match st.reward_amount.checked_add(sum) {
        Option::Some(v) => v,
        Option::None => { return Err(StakingError::Arithmetic) },
    };
    let mut new_st = copy_stake_info(st);
    new_st.reward_locked = new_locked;
    new_st.reward_amount = new_amount;
    new_st.claimed_reward_at = if now_t > cp {
        now_t
    } else {
        cp
    };
    proof {
        assert(new_st@.reward_locked =~= compounded_entries(
            g_locked,
            g_unlocked,
            cp,
            rate,
            total_reward,
            now_t,
        ));
        assert(settle_reward_stake(st@, rate, total_reward, now_t) == Some(new_st@));
    }
    Ok((new_st, sum))
}

/// Executable token-class settlement. Returns the settled position without
/// committing it.
pub fn settle_token_value(st: &StakeInfo, rate: u128, total_weight: u128, now_t: u64) -> (r:
    Result<StakeInfo, StakingError>)
    ensures
        r is Ok ==> settle_token_stake(st@, rate, total_weight, now_t) == Some(r->Ok_0@),
        r is Err ==> settle_token_stake(st@, rate, total_weight, now_t) is None && r->Err_0
            == StakingError::Arithmetic,
{
    if st.token_weight != 0 && now_t / 1000 > st.claimed_token_at / 1000 {
        let dt: u64 = now_t / 1000 - st.claimed_token_at / 1000;
        let delta = match accrual_delta(
            st.token_weight,
            ACCRUAL_TOKEN_SCALE,
            rate,
            total_weight,
            dt as u128,
        ) {
            Ok(v) => v,
            Err(e) => { return Err(e) },
        };
        let rtc = match delta.checked_add(st.reward_token_to_claim) {
            Option::Some(v) => v,
            Option::None => { return Err(StakingError::Arithmetic) },
        };
        let mut new_st = copy_stake_info(st);
        new_st.reward_token_to_claim = rtc;
        new_st.claimed_token_at = now_t;
        proof {
            assert(settle_token_stake(st@, rate, total_weight, now_t) == Some(new_st@));
        }
        Ok(new_st)
    } else {
        let new_st = copy_stake_info(st);
        Ok(new_st)
    }
}

/// Executable LP-class settlement. Returns the settled position without
/// committing it.
pub fn settle_lp_value(st: &StakeInfo, rate: u128, total_weight: u128, now_t: u64) -> (r: Result<
    StakeInfo,
    StakingError,
>)
    ensures
        r is Ok ==> settle_lp_stake(st@, rate, total_weight, now_t) == Some(r->Ok_0@),
        r is Err ==> settle_lp_stake(st@, rate, total_weight, now_t) is None && r->Err_0
            == StakingError::Arithmetic,
{
    if st.lp_share_weight != 0 && now_t / 1000 > st.claimed_lp_at / 1000 {
        let dt: u64 = now_t / 1000 - st.claimed_lp_at / 1000;
        let delta = match accrual_delta(
            st.lp_share_weight,
            ACCRUAL_LP_SCALE,
            rate,
            total_weight,
            dt as u128,
        ) {
            Ok(v) => v,
            Err(e) => { return Err(e) },
        };
        let rlc = match delta.checked_add(st.reward_lp_to_claim) {
            Option::Some(v) => v,
            Option::None => { return Err(StakingError::Arithmetic) },
        };
        let mut new_st = copy_stake_info(st);
        new_st.reward_lp_to_claim = rlc;
        new_st.claimed_lp_at = now_t;
        proof {
            assert(settle_lp_stake(st@, rate, total_weight, now_t) == Some(new_st@));
        }
        Ok(new_st)
    } else {
        let new_st = copy_stake_info(st);
        Ok(new_st)
    }
}

/// Whether a batch settlement of `farm` for `token_type` at `now` is a
/// no-op by policy: the farm has no pool of that class, or the reward
/// window has not opened yet.
pub open spec fn settle_skip(farm: FarmInfoView, token_type: u8, now: u64) -> bool {
    ||| token_type == 0 && farm.farm_type == 1
    ||| token_type == 1 && farm.farm_type == 0
    ||| now < farm.starting_at
}

/// The effective settlement time: `now`, clamped above by the end of the
/// farm's reward window.
pub open spec fn settle_now(farm: FarmInfoView, now: u64) -> u64 {
    if now > farm.ending_at {
        farm.ending_at
    } else {
        now
    }
}

/// Settlement of one position for one asset class, against the farm's rates
/// and the snapshot `snapshot` of its total staked reward.
pub open spec fn settle_stake(
    st: StakeInfoView,
    token_type: u8,
    farm: FarmInfoView,
    snapshot: u128,
    now_t: u64,
) -> Option<StakeInfoView> {
    if token_type == 0 {
        settle_token_stake(st, farm.token_reward_rate, farm.total_token_weight, now_t)
    } else if token_type == 1 {
        settle_lp_stake(st, farm.pool_reward_rate, farm.total_lp_share_weight, now_t)
    } else if token_type == 2 {
        settle_reward_stake(st, farm.reward_reward_rate, snapshot, now_t)
    } else {
        Option::Some(st)
    }
}

/// How much one position's settlement adds to the farm's total staked
/// reward: zero except for the reward class.
pub open spec fn settle_stake_add(
    st: StakeInfoView,
    token_type: u8,
    farm: FarmInfoView,
    snapshot: u128,
    now_t: u64,
) -> int {
    if token_type == 2 {
        settle_reward_add(st, farm.reward_reward_rate, snapshot, now_t)
    } else {
        0
    }
}

/// Every position of the batch settles without a checked-arithmetic
/// failure.
pub open spec fn all_stakes_settle_ok(
    stakes: Seq<StakeInfoView>,
    token_type: u8,
    farm: FarmInfoView,
    snapshot: u128,
    now_t: u64,
) -> bool {
    forall|i: int|
        0 <= i < stakes.len() ==> (#[trigger] settle_stake(
            stakes[i],
            token_type,
            farm,
            snapshot,
            now_t,
        )) is Some
}

/// The batch-settled positions.
pub open spec fn settled_stakes(
    stakes: Seq<StakeInfoView>,
    token_type: u8,
    farm: FarmInfoView,
    snapshot: u128,
    now_t: u64,
) -> Seq<StakeInfoView> {
    Seq::new(stakes.len(), |i: int| settle_stake(stakes[i], token_type, farm, snapshot, now_t)->0)
}

/// What the whole batch adds to the farm's total staked reward.
pub open spec fn settle_added(
    stakes: Seq<StakeInfoView>,
    token_type: u8,
    farm: FarmInfoView,
    snapshot: u128,
    now_t: u64,
) -> int
    decreases stakes.len(),
{
    if stakes.len() == 0 {
        0
    } else {
        settle_added(stakes.drop_last(), token_type, farm, snapshot, now_t) + settle_stake_add(
            stakes.last(),
            token_type,
            farm,
            snapshot,
            now_t,
        )
    }
}

/// A batch never removes staked reward.
pub proof fn lemma_settle_added_nonneg(
    stakes: Seq<StakeInfoView>,
    token_type: u8,
    farm: FarmInfoView,
    snapshot: u128,
    now_t: u64,
)
    ensures
        settle_added(stakes, token_type, farm, snapshot, now_t) >= 0,
    decreases stakes.len(),
{
    if stakes.len() > 0 {
        lemma_settle_added_nonneg(stakes.drop_last(), token_type, farm, snapshot, now_t);
        if token_type == 2 {
            lemma_reward_delta_sum_nonneg(
                stakes.last().reward_locked,
                stakes.last().unlocked_at,
                stakes.last().claimed_reward_at,
                farm.reward_reward_rate,
                snapshot,
                now_t,
            );
        }
    }
}

/// Extending a prefix never shrinks what the batch adds.
pub proof fn lemma_settle_added_take_le(
    stakes: Seq<StakeInfoView>,
    token_type: u8,
    farm: FarmInfoView,
    snapshot: u128,
    now_t: u64,
    i: int,
    j: int,
)
    requires
        0 <= i <= j <= stakes.len(),
    ensures
        settle_added(stakes.take(i), token_type, farm, snapshot, now_t) <= settle_added(
            stakes.take(j),
            token_type,
            farm,
            snapshot,
            now_t,
        ),
    decreases j - i,
{
    if i < j {
        lemma_settle_added_take_le(stakes, token_type, farm, snapshot, now_t, i, j - 1);
        assert(stakes.take(j).drop_last() =~= stakes.take(j - 1));
        if token_type == 2 {
            lemma_reward_delta_sum_nonneg(
                stakes.take(j).last().reward_locked,
                stakes.take(j).last().unlocked_at,
                stakes.take(j).last().claimed_reward_at,
                farm.reward_reward_rate,
                snapshot,
                now_t,
            );
        }
    }
}

/// A settled position keeps its owner, its balances of the other classes
/// and its lock-schedule shape.
pub proof fn lemma_settle_stake_shape(
    st: StakeInfoView,
    token_type: u8,
    farm: FarmInfoView,
    snapshot: u128,
    now_t: u64,
)
    requires
        st.wf(),
        settle_stake(st, token_type, farm, snapshot, now_t) is Some,
    ensures
        settle_stake(st, token_type, farm, snapshot, now_t)->0.owner_id == st.owner_id,
        settle_stake(st, token_type, farm, snapshot, now_t)->0.wf(),
{
}

/// The batch settlement of one farm for one asset class at time `now`: a
/// no-op where `settle_skip` holds; otherwise every position is settled at
/// the clamped time against a snapshot of the farm's totals, and the newly
/// compounded reward is added to the farm's total staked reward. `None`
/// marks a checked-arithmetic failure; nothing else of the farm changes.
pub open spec fn settle_farm(farm: FarmInfoView, token_type: u8, now: u64) -> Option<
    FarmInfoView,
> {
    if settle_skip(farm, token_type, now) {
        Option::Some(farm)
    } else {
        let now_t = settle_now(farm, now);
        let snapshot = farm.total_reward_amount;
        let added = settle_added(farm.stake_infos, token_type, farm, snapshot, now_t);
        if all_stakes_settle_ok(farm.stake_infos, token_type, farm, snapshot, now_t)
            && farm.total_reward_amount + added <= u128::MAX {
            Option::Some(
                FarmInfoView {
                    stake_infos: settled_stakes(farm.stake_infos, token_type, farm, snapshot, now_t),
                    total_reward_amount: (farm.total_reward_amount + added) as u128,
                    ..farm
                },
            )
        } else {
            Option::None
        }
    }
}

/// A settled farm keeps its parameters, its position count, each
/// position's owner and each position's well-formedness.
pub proof fn lemma_settle_farm_shape(farm: FarmInfoView, token_type: u8, now: u64)
    requires
        farm.wf(),
        settle_farm(farm, token_type, now) is Some,
    ensures
        ({
            let f1 = settle_farm(farm, token_type, now)->0;
            &&& f1.stake_infos.len() == farm.stake_infos.len()
            &&& forall|i: int|
                0 <= i < farm.stake_infos.len() ==> (#[trigger] f1.stake_infos[i]).owner_id
                    == farm.stake_infos[i].owner_id
            &&& f1.wf()
            &&& f1.farm_id == farm.farm_id
            &&& f1.farm_type == farm.farm_type
            &&& f1.token_id == farm.token_id
            &&& f1.pool_id == farm.pool_id
            &&& f1.total_token_amount == farm.total_token_amount
            &&& f1.total_token_weight == farm.total_token_weight
            &&& f1.total_lp_share_amount == farm.total_lp_share_amount
            &&& f1.total_lp_share_weight == farm.total_lp_share_weight
            &&& f1.max_token_vesting_duration == farm.max_token_vesting_duration
            &&& f1.max_reward_vesting_duration == farm.max_reward_vesting_duration
            &&& f1.starting_at == farm.starting_at
            &&& f1.ending_at == farm.ending_at
        }),
{
    let f1 = settle_farm(farm, token_type, now)->0;
    if settle_skip(farm, token_type, now) {
    } else {
        let now_t = settle_now(farm, now);
        let snapshot = farm.total_reward_amount;
        assert forall|i: int| 0 <= i < farm.stake_infos.len() implies (#[trigger] f1.stake_infos[
            i
        ]).owner_id == farm.stake_infos[i].owner_id && f1.stake_infos[i].wf() by {
            lemma_settle_stake_shape(farm.stake_infos[i], token_type, farm, snapshot, now_t);
        }
    }
}

/// Executable batch settlement. Returns the settled farm without
/// committing it.
pub fn settled_farm_value(farm: &FarmInfo, token_type: u8, now: u64) -> (r: Result<
    FarmInfo,
    StakingError,
>)
    requires
        farm@.wf(),
    ensures
        r is Ok ==> settle_farm(farm@, token_type, now) == Some(r->Ok_0@) && r->Ok_0@.wf(),
        r is Err ==> settle_farm(farm@, token_type, now) is None && r->Err_0
            == StakingError::Arithmetic,
{
    if (token_type == 0 && farm.farm_type == 1) || (token_type == 1 && farm.farm_type == 0) || now
        < farm.starting_at {
        return Ok(copy_farm_info(farm));
    }
    let now_t: u64 = if now > farm.ending_at {
        farm.ending_at
    } else {
        now
    };
    let snapshot: u128 = farm.total_reward_amount;
    let ghost g_stakes = farm@.stake_infos;
    let mut new_stakes: Vec<StakeInfo> = Vec::new();
    let mut total_reward: u128 = farm.total_reward_amount;
    let mut i: usize = 0;
    while i < farm.stake_infos.len()
        invariant
            farm@.wf(),
            !settle_skip(farm@, token_type, now),
            now_t == settle_now(farm@, now),
            snapshot == farm@.total_reward_amount,
            g_stakes == farm@.stake_infos,
            i <= g_stakes.len(),
            new_stakes@.len() == i,
            forall|j: int|
                0 <= j < i ==> (#[trigger] settle_stake(
                    g_stakes[j],
                    token_type,
                    farm@,
                    snapshot,
                    now_t,
                )) is Some,
            forall|j: int|
                0 <= j < i ==> (#[trigger] new_stakes@[j])@ == settle_stake(
                    g_stakes[j],
                    token_type,
                    farm@,
                    snapshot,
                    now_t,
                )->0,
            total_reward == snapshot + settle_added(
                g_stakes.take(i as int),
                token_type,
                farm@,
                snapshot,
                now_t,
            ),
        decreases g_stakes.len() - i,
    {
        let st = &farm.stake_infos[i];
        let settled: StakeInfo;
        let added: u128;
        if token_type == 0 {
            settled = match settle_token_value(
                st,
                farm.token_reward_rate,
                farm.total_token_weight,
                now_t,
            ) {
                Ok(v) => v,
                Err(e) => {
                    proof {
                        assert(settle_stake(g_stakes[i as int], token_type, farm@, snapshot, now_t)
                            is None);
                    }
                    return Err(e);
                },
            };
            added = 0;
        } else if token_type == 1 {
            settled = match settle_lp_value(
                st,
                farm.pool_reward_rate,
                farm.total_lp_share_weight,
                now_t,
            ) {
                Ok(v) => v,
                Err(e) => {
                    proof {
                        assert(settle_stake(g_stakes[i as int], token_type, farm@, snapshot, now_t)
                            is None);
                    }
                    return Err(e);
                },
            };
            added = 0;
        } else if token_type == 2 {
            let pair = match settle_reward_value(st, farm.reward_reward_rate, snapshot, now_t) {
                Ok(v) => v,
                Err(e) => {
                    proof {
                        assert(settle_stake(g_stakes[i as int], token_type, farm@, snapshot, now_t)
                            is None);
                    }
                    return Err(e);
                },
            };
            settled = pair.0;
            added = pair.1;
        } else {
            settled = copy_stake_info(st);
            added = 0;
        }
        if token_type == 2 {
            total_reward = match total_reward.checked_add(added) {
                Option::Some(v) => v,
                Option::None => {
                    proof {
                        assert(g_stakes.take(i + 1).drop_last() =~= g_stakes.take(i as int));
                        lemma_settle_added_take_le(
                            g_stakes,
                            token_type,
                            farm@,
                            snapshot,
                            now_t,
                            i + 1,
                            g_stakes.len() as int,
                        );
                        assert(g_stakes.take(g_stakes.len() as int) =~= g_stakes);
                    }
                    return Err(StakingError::Arithmetic);
                },
            };
        }
        new_stakes.push(settled);
        proof {
            assert(g_stakes.take(i + 1).drop_last() =~= g_stakes.take(i as int));
        }
        i = i + 1;
    }
    proof {
        assert(g_stakes.take(g_stakes.len() as int) =~= g_stakes);
    }
    let mut new_farm = copy_farm_info(farm);
    new_farm.stake_infos = new_stakes;
    new_farm.total_reward_amount = total_reward;
    proof {
        assert(new_farm@.stake_infos =~= settled_stakes(
            g_stakes,
            token_type,
            farm@,
            snapshot,
            now_t,
        ));
        assert(settle_farm(farm@, token_type, now) == Some(new_farm@));
        assert forall|k: int| 0 <= k < new_farm@.stake_infos.len() implies (
        #[trigger] new_farm@.stake_infos[k]).wf() && new_farm@.stake_infos[k].owner_id
            == g_stakes[k].owner_id by {
            lemma_settle_stake_shape(g_stakes[k], token_type, farm@, snapshot, now_t);
        }
        assert(new_farm@.wf());
    }
    Ok(new_farm)
}

/// The claimable amount `claim_amount` reports: what a settlement at `time`
/// would leave in the claimable accumulator of the class (token, LP), or
/// newly compound (reward class). Zero before the reward window opens and
/// for a class the farm has no pool of; time past the window stands still.
pub open spec fn pending_claim(
    farm: FarmInfoView,
    st: StakeInfoView,
    token_type: u8,
    time: u64,
) -> Option<u128> {
    if time < farm.starting_at {
        Option::Some(0u128)
    } else {
        let now_t = settle_now(farm, time);
        if token_type == 0 && farm.farm_type == 1 {
            Option::Some(0u128)
        } else if token_type == 1 && farm.farm_type == 0 {
            Option::Some(0u128)
        } else if token_type == 0 {
            match settle_token_stake(st, farm.token_reward_rate, farm.total_token_weight, now_t) {
                Option::None => Option::None,
                Option::Some(s2) => Option::Some(s2.reward_token_to_claim),
            }
        } else if token_type == 1 {
            match settle_lp_stake(st, farm.pool_reward_rate, farm.total_lp_share_weight, now_t) {
                Option::None => Option::None,
                Option::Some(s2) => Option::Some(s2.reward_lp_to_claim),
            }
        } else if token_type == 2 {
            if settle_reward_stake(st, farm.reward_reward_rate, farm.total_reward_amount, now_t)
                is Some {
                Option::Some(
                    settle_reward_add(st, farm.reward_reward_rate, farm.total_reward_amount, now_t)
                        as u128,
                )
            } else {
                Option::None
            }
        } else {
            Option::Some(0u128)
        }
    }
}

impl crate::Contract {
    /// Commit a batch settlement: settle every position of farm `farm_id`
    /// for `token_type` as of `now` and write the result back. On any
    /// error the ledger is unchanged.
    pub fn update_claim_amounts(&mut self, farm_id: u16, token_type: u8, now: u64) -> (r: Result<
        (),
        StakingError,
    >)
        requires
            old(self)@.wf(),
        ensures
            final(self)@.wf(),
            match r {
                Ok(()) => (farm_id as int) < old(self)@.farm_infos.len() && settle_farm(
                    old(self)@.farm_infos[farm_id as int],
                    token_type,
                    now,
                ) is Some && final(self)@ == (crate::ContractView {
                    farm_infos: old(self)@.farm_infos.update(
                        farm_id as int,
                        settle_farm(old(self)@.farm_infos[farm_id as int], token_type, now)->0,
                    ),
                    ..old(self)@
                }),
                Err(e) => final(self)@ == old(self)@ && ((e == StakingError::InvalidReference
                    && (farm_id as int) >= old(self)@.farm_infos.len()) || (e
                    == StakingError::Arithmetic && (farm_id as int) < old(self)@.farm_infos.len()
                    && settle_farm(old(self)@.farm_infos[farm_id as int], token_type, now)
                    is None)),
            },
    {
        if (farm_id as usize) >= self.farm_infos.len() {
            return Err(StakingError::InvalidReference);
        }
        let settled = match settled_farm_value(&self.farm_infos[farm_id as usize], token_type, now) {
            Ok(v) => v,
            Err(e) => { return Err(e) },
        };
        let ghost pre = self@;
        self.farm_infos.set(farm_id as usize, settled);
        proof {
            assert(self@ =~= (crate::ContractView {
                farm_infos: pre.farm_infos.update(
                    farm_id as int,
                    settle_farm(pre.farm_infos[farm_id as int], token_type, now)->0,
                ),
                ..pre
            }));
            assert forall|k: int| 0 <= k < self@.farm_infos.len() implies (
            #[trigger] self@.farm_infos[k]).wf() by {
                if k != farm_id as int {
                    assert(self@.farm_infos[k] == pre.farm_infos[k]);
                }
            }
        }
        Ok(())
    }

    /// A copy of `account_id`'s position in farm `farm_id`.
    pub fn staking_informations_by_owner_id(&self, farm_id: u16, account_id: u64) -> (r: Result<
        StakeInfo,
        StakingError,
    >)
        ensures
            match r {
                Ok(st) => (farm_id as int) < self@.farm_infos.len() && (exists|i: int|
                    #![auto]
                    0 <= i < self@.farm_infos[farm_id as int].stake_infos.len() && self@.farm_infos[
                        farm_id as int
                    ].stake_infos[i].owner_id == account_id && st@ == self@.farm_infos[
                        farm_id as int
                    ].stake_infos[i]),
                Err(e) => e == StakingError::InvalidReference && ((farm_id as int)
                    >= self@.farm_infos.len() || (forall|i: int|
                    #![auto]
                    0 <= i < self@.farm_infos[farm_id as int].stake_infos.len()
                        ==> self@.farm_infos[farm_id as int].stake_infos[i].owner_id
                        != account_id)),
            },
    {
        if (farm_id as usize) >= self.farm_infos.len() {
            return Err(StakingError::InvalidReference);
        }
        let farm = &self.farm_infos[farm_id as usize];
        match farm.find_stake(account_id) {
            Option::Some(i) => {
                let st = copy_stake_info(&farm.stake_infos[i]);
                proof {
                    let gi = i as int;
                    assert(self@.farm_infos[farm_id as int].stake_infos[gi].owner_id
                        == account_id);
                    assert(st@ == self@.farm_infos[farm_id as int].stake_infos[gi]);
                }
                Ok(st)
            },
            Option::None => Err(StakingError::InvalidReference),
        }
    }

    /// The still-locked part of `account_id`'s token balance in farm
    /// `farm_id` at time `now`: zero for an LP-only farm, otherwise the sum
    /// of the token lock entries whose unlock time is after `now`.
    pub fn token_locked_amount(&self, farm_id: u16, account_id: u64, now: u64) -> (r: Result<
        u128,
        StakingError,
    >)
        requires
            self@.wf(),
        ensures
            match r {
                Ok(v) => (farm_id as int) < self@.farm_infos.len() && ({
                    let farm = self@.farm_infos[farm_id as int];
                    ||| farm.farm_type == 1 && v == 0
                    ||| farm.farm_type != 1 && (exists|i: int|
                        #![auto]
                        0 <= i < farm.stake_infos.len() && farm.stake_infos[i].owner_id
                            == account_id && v == crate::lock_schedule::locked_sum(
                            farm.stake_infos[i].token_locked,
                            farm.stake_infos[i].unlocked_at,
                            now,
                        ))
                }),
                Err(e) => {
                    ||| e == StakingError::InvalidReference && ((farm_id as int)
                        >= self@.farm_infos.len() || (self@.farm_infos[farm_id as int].farm_type
                        != 1 && (forall|i: int|
                        #![auto]
                        0 <= i < self@.farm_infos[farm_id as int].stake_infos.len()
                            ==> self@.farm_infos[farm_id as int].stake_infos[i].owner_id
                            != account_id)))
                    ||| e == StakingError::Arithmetic && (farm_id as int) < self@.farm_infos.len()
                        && self@.farm_infos[farm_id as int].farm_type != 1 && (exists|i: int|
                        #![auto]
                        0 <= i < self@.farm_infos[farm_id as int].stake_infos.len()
                            && self@.farm_infos[farm_id as int].stake_infos[i].owner_id
                            == account_id && crate::lock_schedule::locked_sum(
                            self@.farm_infos[farm_id as int].stake_infos[i].token_locked,
                            self@.farm_infos[farm_id as int].stake_infos[i].unlocked_at,
                            now,
                        ) > u128::MAX)
                },
            },
    {
        if (farm_id as usize) >= self.farm_infos.len() {
            return Err(StakingError::InvalidReference);
        }
        let farm = &self.farm_infos[farm_id as usize];
        if farm.farm_type == 1 {
            return Ok(0);
        }
        match farm.find_stake(account_id) {
            Option::Some(i) => {
                let st = &farm.stake_infos[i];
                proof {
                    assert(self@.farm_infos[farm_id as int].wf());
                    assert(st@.wf());
                }
                let res = crate::lock_schedule::locked_amount_of(&st.token_locked, &st.unlocked_at, now);
                proof {
                    let gfarm = self@.farm_infos[farm_id as int];
                    let gi = i as int;
                    assert(gfarm.stake_infos[gi].owner_id == account_id);
                    if res is Ok {
                        assert(res->Ok_0 == crate::lock_schedule::locked_sum(
                            gfarm.stake_infos[gi].token_locked,
                            gfarm.stake_infos[gi].unlocked_at,
                            now,
                        ));
                    }
                }
                res
            },
            Option::None => Err(StakingError::InvalidReference),
        }
    }

    /// The still-locked part of `account_id`'s LP-share balance in farm
    /// `farm_id` at time `now`: zero for a token-only farm, otherwise the
    /// sum of the LP lock entries whose unlock time is after `now`.
    pub fn lp_locked_amount(&self, farm_id: u16, account_id: u64, now: u64) -> (r: Result<
        u128,
        StakingError,
    >)
        requires
            self@.wf(),
        ensures
            match r {
                Ok(v) => (farm_id as int) < self@.farm_infos.len() && ({
                    let farm = self@.farm_infos[farm_id as int];
                    ||| farm.farm_type == 0 && v == 0
                    ||| farm.farm_type != 0 && (exists|i: int|
                        #![auto]
                        0 <= i < farm.stake_infos.len() && farm.stake_infos[i].owner_id
                            == account_id && v == crate::lock_schedule::locked_sum(
                            farm.stake_infos[i].lp_share_locked,
                            farm.stake_infos[i].unlocked_at,
                            now,
                        ))
                }),
                Err(e) => {
                    ||| e == StakingError::InvalidReference && ((farm_id as int)
                        >= self@.farm_infos.len() || (self@.farm_infos[farm_id as int].farm_type
                        != 0 && (forall|i: int|
                        #![auto]
                        0 <= i < self@.farm_infos[farm_id as int].stake_infos.len()
                            ==> self@.farm_infos[farm_id as int].stake_infos[i].owner_id
                            != account_id)))
                    ||| e == StakingError::Arithmetic && (farm_id as int) < self@.farm_infos.len()
                        && self@.farm_infos[farm_id as int].farm_type != 0 && (exists|i: int|
                        #![auto]
                        0 <= i < self@.farm_infos[farm_id as int].stake_infos.len()
                            && self@.farm_infos[farm_id as int].stake_infos[i].owner_id
                            == account_id && crate::lock_schedule::locked_sum(
                            self@.farm_infos[farm_id as int].stake_infos[i].lp_share_locked,
                            self@.farm_infos[farm_id as int].stake_infos[i].unlocked_at,
                            now,
                        ) > u128::MAX)
                },
            },
    {
        if (farm_id as usize) >= self.farm_infos.len() {
            return Err(StakingError::InvalidReference);
        }
        let farm = &self.farm_infos[farm_id as usize];
        if farm.farm_type == 0 {
            return Ok(0);
        }
        match farm.find_stake(account_id) {
            Option::Some(i) => {
                let st = &farm.stake_infos[i];
                proof {
                    assert(self@.farm_infos[farm_id as int].wf());
                    assert(st@.wf());
                }
                let res = crate::lock_schedule::locked_amount_of(&st.lp_share_locked, &st.unlocked_at, now);
                proof {
                    let gfarm = self@.farm_infos[farm_id as int];
                    let gi = i as int;
                    assert(gfarm.stake_infos[gi].owner_id == account_id);
                    if res is Ok {
                        assert(res->Ok_0 == crate::lock_schedule::locked_sum(
                            gfarm.stake_infos[gi].lp_share_locked,
                            gfarm.stake_infos[gi].unlocked_at,
                            now,
                        ));
                    }
                }
                res
            },
            Option::None => Err(StakingError::InvalidReference),
        }
    }

    /// The still-locked part of `account_id`'s earned-reward balance in
    /// farm `farm_id` at time `now`.
    pub fn reward_locked_amount(&self, farm_id: u16, account_id: u64, now: u64) -> (r: Result<
        u128,
        StakingError,
    >)
        requires
            self@.wf(),
        ensures
            match r {
                Ok(v) => (farm_id as int) < self@.farm_infos.len() && (exists|i: int|
                    #![auto]
                    0 <= i < self@.farm_infos[farm_id as int].stake_infos.len() && self@.farm_infos[
                        farm_id as int
                    ].stake_infos[i].owner_id == account_id && v
                        == crate::lock_schedule::locked_sum(
                        self@.farm_infos[farm_id as int].stake_infos[i].reward_locked,
                        self@.farm_infos[farm_id as int].stake_infos[i].unlocked_at,
                        now,
                    )),
                Err(e) => {
                    ||| e == StakingError::InvalidReference && ((farm_id as int)
                        >= self@.farm_infos.len() || (forall|i: int|
                        #![auto]
                        0 <= i < self@.farm_infos[farm_id as int].stake_infos.len()
                            ==> self@.farm_infos[farm_id as int].stake_infos[i].owner_id
                            != account_id))
                    ||| e == StakingError::Arithmetic && (farm_id as int) < self@.farm_infos.len()
                        && (exists|i: int|
                        #![auto]
                        0 <= i < self@.farm_infos[farm_id as int].stake_infos.len()
                            && self@.farm_infos[farm_id as int].stake_infos[i].owner_id
                            == account_id && crate::lock_schedule::locked_sum(
                            self@.farm_infos[farm_id as int].stake_infos[i].reward_locked,
                            self@.farm_infos[farm_id as int].stake_infos[i].unlocked_at,
                            now,
                        ) > u128::MAX)
                },
            },
    {
        if (farm_id as usize) >= self.farm_infos.len() {
            return Err(StakingError::InvalidReference);
        }
        let farm = &self.farm_infos[farm_id as usize];
        match farm.find_stake(account_id) {
            Option::Some(i) => {
                let st = &farm.stake_infos[i];
                proof {
                    assert(self@.farm_infos[farm_id as int].wf());
                    assert(st@.wf());
                }
                let res = crate::lock_schedule::locked_amount_of(&st.reward_locked, &st.unlocked_at, now);
                proof {
                    let gfarm = self@.farm_infos[farm_id as int];
                    let gi = i as int;
                    assert(gfarm.stake_infos[gi].owner_id == account_id);
                    if res is Ok {
                        assert(res->Ok_0 == crate::lock_schedule::locked_sum(
                            gfarm.stake_infos[gi].reward_locked,
                            gfarm.stake_infos[gi].unlocked_at,
                            now,
                        ));
                    }
                }
                res
            },
            Option::None => Err(StakingError::InvalidReference),
        }
    }

    /// The reward of asset class `token_type` that `account_id` could claim
    /// from farm `farm_id` as of `time`: exactly what a settlement at
    /// `time` would leave claimable (token, LP) or newly compound (reward).
    pub fn claim_amount(&self, farm_id: u16, account_id: u64, token_type: u8, time: u64) -> (r:
        Result<u128, StakingError>)
        requires
            self@.wf(),
        ensures
            match r {
                Ok(v) => (farm_id as int) < self@.farm_infos.len() && (exists|i: int|
                    #![auto]
                    0 <= i < self@.farm_infos[farm_id as int].stake_infos.len() && self@.farm_infos[
                        farm_id as int
                    ].stake_infos[i].owner_id == account_id && pending_claim(
                        self@.farm_infos[farm_id as int],
                        self@.farm_infos[farm_id as int].stake_infos[i],
                        token_type,
                        time,
                    ) == Some(v)),
                Err(e) => (e == StakingError::InvalidReference && ((farm_id as int)
                    >= self@.farm_infos.len() || (forall|i: int|
                    #![auto]
                    0 <= i < self@.farm_infos[farm_id as int].stake_infos.len()
                        ==> self@.farm_infos[farm_id as int].stake_infos[i].owner_id
                        != account_id))) || (e == StakingError::Arithmetic && (exists|i: int|
                    #![auto]
                    0 <= i < self@.farm_infos[farm_id as int].stake_infos.len() && self@.farm_infos[
                        farm_id as int
                    ].stake_infos[i].owner_id == account_id && pending_claim(
                        self@.farm_infos[farm_id as int],
                        self@.farm_infos[farm_id as int].stake_infos[i],
                        token_type,
                        time,
                    ) is None)),
            },
    {
        if (farm_id as usize) >= self.farm_infos.len() {
            return Err(StakingError::InvalidReference);
        }
        let farm = &self.farm_infos[farm_id as usize];
        let stake_idx = match farm.find_stake(account_id) {
            Option::Some(i) => i,
            Option::None => { return Err(StakingError::InvalidReference) },
        };
        let st = &farm.stake_infos[stake_idx];
        let ghost gfarm = self@.farm_infos[farm_id as int];
        let ghost gst = gfarm.stake_infos[stake_idx as int];
        proof {
            assert(st@ == gst);
        }
        if time < farm.starting_at {
            proof {
                assert(pending_claim(gfarm, gst, token_type, time) == Some(0u128));
            }
            return Ok(0);
        }
        let now_t: u64 = if time > farm.ending_at {
            farm.ending_at
        } else {
            time
        };
        proof {
            assert(now_t == settle_now(gfarm, time));
        }
        if token_type == 0 && farm.farm_type == 1 {
            proof {
                assert(pending_claim(gfarm, gst, token_type, time) == Some(0u128));
            }
            return Ok(0);
        }
        if token_type == 1 && farm.farm_type == 0 {
            proof {
                assert(pending_claim(gfarm, gst, token_type, time) == Some(0u128));
            }
            return Ok(0);
        }
        if token_type == 0 {
            match settle_token_value(st, farm.token_reward_rate, farm.total_token_weight, now_t) {
                Ok(s2) => {
                    proof {
                        assert(pending_claim(gfarm, gst, token_type, time) == Some(
                            s2.reward_token_to_claim,
                        ));
                    }
                    Ok(s2.reward_token_to_claim)
                },
                Err(e) => {
                    proof {
                        assert(pending_claim(gfarm, gst, token_type, time) is None);
                    }
                    Err(e)
                },
            }
        } else if token_type == 1 {
            match settle_lp_value(st, farm.pool_reward_rate, farm.total_lp_share_weight, now_t) {
                Ok(s2) => {
                    proof {
                        assert(pending_claim(gfarm, gst, token_type, time) == Some(
                            s2.reward_lp_to_claim,
                        ));
                    }
                    Ok(s2.reward_lp_to_claim)
                },
                Err(e) => {
                    proof {
                        assert(pending_claim(gfarm, gst, token_type, time) is None);
                    }
                    Err(e)
                },
            }
        } else if token_type == 2 {
            match settle_reward_value(st, farm.reward_reward_rate, farm.total_reward_amount, now_t) {
                Ok(pair) => {
                    proof {
                        assert(pending_claim(gfarm, gst, token_type, time) == Some(pair.1));
                    }
                    Ok(pair.1)
                },
                Err(e) => {
                    proof {
                        assert(pending_claim(gfarm, gst, token_type, time) is None);
                    }
                    Err(e)
                },
            }
        } else {
            proof {
                assert(pending_claim(gfarm, gst, token_type, time) == Some(0u128));
            }
            Ok(0)
        }
    }
}

} // verus!
