//! Per-account stake positions.
//!
//! A position keeps, per asset class (token, LP share, earned reward), a
//! balance, a time-and-amount weight, a claim checkpoint, and its share of
//! the farm's append-only lock schedule: five index-aligned vectors holding,
//! for every stake event, the locked amount of each class, the unlock time
//! and the chosen duration. Entries are appended on deposit and compounded
//! in place by reward settlement; they are never removed.
use vstd::prelude::*;

use crate::errors::StakingError;
use crate::farm_info::FarmInfo;
use crate::farm_info::FarmInfoView;
use crate::internal::lemma_settle_farm_shape;
use crate::internal::settle_farm;
use crate::internal::settled_farm_value;
use crate::lock_schedule::locked_amount_of;
use crate::lock_schedule::locked_sum;
use crate::math::UNSTAKE_WEIGHT_SCALE;
use crate::math::ck_div;
use crate::math::ck_mul;

verus! {

/// Spec-level image of a `StakeInfo`.
#[verifier::ext_equal]
pub ghost struct StakeInfoView {
    pub owner_id: u64,
    pub token_amount: u128,
    pub lp_share_amount: u128,
    pub reward_amount: u128,
    pub token_weight: u128,
    pub lp_share_weight: u128,
    pub reward_token_to_claim: u128,
    pub reward_lp_to_claim: u128,
    pub token_locked: Seq<u128>,
    pub lp_share_locked: Seq<u128>,
    pub reward_locked: Seq<u128>,
    pub unlocked_at: Seq<u64>,
    pub staking_duration: Seq<u64>,
    pub created_at: u64,
    pub claimed_token_at: u64,
    pub claimed_lp_at: u64,
    pub claimed_reward_at: u64,
}

/// One account's position within one farm.
pub struct StakeInfo {
    pub owner_id: u64,
    pub token_amount: u128,
    pub lp_share_amount: u128,
    pub reward_amount: u128,
    pub token_weight: u128,
    pub lp_share_weight: u128,
    pub reward_token_to_claim: u128,
    pub reward_lp_to_claim: u128,
    pub token_locked: Vec<u128>,
    pub lp_share_locked: Vec<u128>,
    pub reward_locked: Vec<u128>,
    pub unlocked_at: Vec<u64>,
    pub staking_duration: Vec<u64>,
    pub created_at: u64,
    pub claimed_token_at: u64,
    pub claimed_lp_at: u64,
    pub claimed_reward_at: u64,
}

impl View for StakeInfo {
    type V = StakeInfoView;

    open spec fn view(&self) -> StakeInfoView {
        StakeInfoView {
            owner_id: self.owner_id,
            token_amount: self.token_amount,
            lp_share_amount: self.lp_share_amount,
            reward_amount: self.reward_amount,
            token_weight: self.token_weight,
            lp_share_weight: self.lp_share_weight,
            reward_token_to_claim: self.reward_token_to_claim,
            reward_lp_to_claim: self.reward_lp_to_claim,
            token_locked: self.token_locked@,
            lp_share_locked: self.lp_share_locked@,
            reward_locked: self.reward_locked@,
            unlocked_at: self.unlocked_at@,
            staking_duration: self.staking_duration@,
            created_at: self.created_at,
            claimed_token_at: self.claimed_token_at,
            claimed_lp_at: self.claimed_lp_at,
            claimed_reward_at: self.claimed_reward_at,
        }
    }
}

impl StakeInfoView {
    /// The five lock-schedule vectors stay index-aligned: one entry per
    /// stake event, across all asset classes.
    pub open spec fn wf(self) -> bool {
        &&& self.lp_share_locked.len() == self.token_locked.len()
        &&& self.reward_locked.len() == self.token_locked.len()
        &&& self.unlocked_at.len() == self.token_locked.len()
        &&& self.staking_duration.len() == self.token_locked.len()
    }
}

/// The position an account holds before its first stake event: all balances,
/// weights and schedules empty, every claim checkpoint at `now`.
pub open spec fn empty_stake(owner_id: u64, now: u64) -> StakeInfoView {
    StakeInfoView {
        owner_id: owner_id,
        token_amount: 0,
        lp_share_amount: 0,
        reward_amount: 0,
        token_weight: 0,
        lp_share_weight: 0,
        reward_token_to_claim: 0,
        reward_lp_to_claim: 0,
        token_locked: Seq::empty(),
        lp_share_locked: Seq::empty(),
        reward_locked: Seq::empty(),
        unlocked_at: Seq::empty(),
        staking_duration: Seq::empty(),
        created_at: now,
        claimed_token_at: now,
        claimed_lp_at: now,
        claimed_reward_at: now,
    }
}

impl StakeInfo {
    /// A fresh position for `owner_id`, created lazily on first deposit at
    /// time `now`.
    pub fn empty(owner_id: u64, now: u64) -> (r: StakeInfo)
        ensures
            r@ == empty_stake(owner_id, now),
            r@.wf(),
    {
        let r = StakeInfo {
            owner_id: owner_id,
            token_amount: 0,
            lp_share_amount: 0,
            reward_amount: 0,
            token_weight: 0,
            lp_share_weight: 0,
            reward_token_to_claim: 0,
            reward_lp_to_claim: 0,
            token_locked: Vec::new(),
            lp_share_locked: Vec::new(),
            reward_locked: Vec::new(),
            unlocked_at: Vec::new(),
            staking_duration: Vec::new(),
            created_at: now,
            claimed_token_at: now,
            claimed_lp_at: now,
            claimed_reward_at: now,
        };
        proof {
            assert(r@ =~= empty_stake(owner_id, now));
        }
        r
    }
}

/// Spec-level image of a `SwapStakeInfo`.
#[verifier::ext_equal]
pub ghost struct SwapStakeInfoView {
    pub owner_id: u64,
    pub token_amount: u128,
    pub token_locked: Seq<u128>,
    pub unlocked_at: Seq<u64>,
    pub created_at: u64,
    pub claimed_token_at: Seq<u64>,
}

/// One account's position within one conversion pool: a balance of the
/// converted asset and three index-aligned vectors holding, per conversion
/// event, the locked amount, the unlock time, and the time the entry was
/// last drawn from (the base of its linear vesting).
pub struct SwapStakeInfo {
    pub owner_id: u64,
    pub token_amount: u128,
    pub token_locked: Vec<u128>,
    pub unlocked_at: Vec<u64>,
    pub created_at: u64,
    pub claimed_token_at: Vec<u64>,
}

impl View for SwapStakeInfo {
    type V = SwapStakeInfoView;

    open spec fn view(&self) -> SwapStakeInfoView {
        SwapStakeInfoView {
            owner_id: self.owner_id,
            token_amount: self.token_amount,
            token_locked: self.token_locked@,
            unlocked_at: self.unlocked_at@,
            created_at: self.created_at,
            claimed_token_at: self.claimed_token_at@,
        }
    }
}

impl SwapStakeInfoView {
    /// The three lock-schedule vectors stay index-aligned.
    pub open spec fn wf(self) -> bool {
        &&& self.unlocked_at.len() == self.token_locked.len()
        &&& self.claimed_token_at.len() == self.token_locked.len()
    }
}

/// The position an account holds in a conversion pool before its first
/// conversion.
pub open spec fn empty_swap_stake(owner_id: u64, now: u64) -> SwapStakeInfoView {
    SwapStakeInfoView {
        owner_id: owner_id,
        token_amount: 0,
        token_locked: Seq::empty(),
        unlocked_at: Seq::empty(),
        created_at: now,
        claimed_token_at: Seq::empty(),
    }
}

impl SwapStakeInfo {
    /// A fresh conversion position for `owner_id`, created lazily on first
    /// conversion at time `now`.
    pub fn empty(owner_id: u64, now: u64) -> (r: SwapStakeInfo)
        ensures
            r@ == empty_swap_stake(owner_id, now),
            r@.wf(),
    {
        let r = SwapStakeInfo {
            owner_id: owner_id,
            token_amount: 0,
            token_locked: Vec::new(),
            unlocked_at: Vec::new(),
            created_at: now,
            claimed_token_at: Vec::new(),
        };
        proof {
            assert(r@ =~= empty_swap_stake(owner_id, now));
        }
        r
    }
}

/// An exact copy of a `u128` vector.
pub fn copy_vec_u128(v: &Vec<u128>) -> (r: Vec<u128>)
    ensures
        r@ == v@,
{
    let mut r: Vec<u128> = Vec::new();
    let mut i: usize = 0;
    while i < v.len()
        invariant
            i <= v.len(),
            r@ == v@.take(i as int),
        decreases v.len() - i,
    {
        r.push(v[i]);
        proof {
            assert(r@ =~= v@.take(i + 1));
        }
        i = i + 1;
    }
    proof {
        assert(r@ =~= v@);
    }
    r
}

/// An exact copy of a `u64` vector.
pub fn copy_vec_u64(v: &Vec<u64>) -> (r: Vec<u64>)
    ensures
        r@ == v@,
{
    let mut r: Vec<u64> = Vec::new();
    let mut i: usize = 0;
    while i < v.len()
        invariant
            i <= v.len(),
            r@ == v@.take(i as int),
        decreases v.len() - i,
    {
        r.push(v[i]);
        proof {
            assert(r@ =~= v@.take(i + 1));
        }
        i = i + 1;
    }
    proof {
        assert(r@ =~= v@);
    }
    r
}

/// An exact copy of a conversion position.
pub fn copy_swap_stake_info(st: &SwapStakeInfo) -> (r: SwapStakeInfo)
    ensures
        r@ == st@,
{
    let r = SwapStakeInfo {
        owner_id: st.owner_id,
        token_amount: st.token_amount,
        token_locked: copy_vec_u128(&st.token_locked),
        unlocked_at: copy_vec_u64(&st.unlocked_at),
        created_at: st.created_at,
        claimed_token_at: copy_vec_u64(&st.claimed_token_at),
    };
    proof {
        assert(r@ =~= st@);
    }
    r
}

/// An exact copy of a stake position.
pub fn copy_stake_info(st: &StakeInfo) -> (r: StakeInfo)
    ensures
        r@ == st@,
{
    let r = StakeInfo {
        owner_id: st.owner_id,
        token_amount: st.token_amount,
        lp_share_amount: st.lp_share_amount,
        reward_amount: st.reward_amount,
        token_weight: st.token_weight,
        lp_share_weight: st.lp_share_weight,
        reward_token_to_claim: st.reward_token_to_claim,
        reward_lp_to_claim: st.reward_lp_to_claim,
        token_locked: copy_vec_u128(&st.token_locked),
        lp_share_locked: copy_vec_u128(&st.lp_share_locked),
        reward_locked: copy_vec_u128(&st.reward_locked),
        unlocked_at: copy_vec_u64(&st.unlocked_at),
        staking_duration: copy_vec_u64(&st.staking_duration),
        created_at: st.created_at,
        claimed_token_at: st.claimed_token_at,
        claimed_lp_at: st.claimed_lp_at,
        claimed_reward_at: st.claimed_reward_at,
    };
    proof {
        assert(r@ =~= st@);
    }
    r
}


/// What the host must transfer out of custody after a withdrawal.
#[derive(Clone, Copy, Debug, PartialEq, Eq, Structural)]
pub enum TransferAction {
    /// Transfer `amount` of the fungible token `token_id` to `receiver_id`.
    Ft { token_id: u64, receiver_id: u64, amount: u128 },
    /// Transfer `amount` of pool `pool_id`'s LP shares to `receiver_id`.
    Mft { pool_id: u64, receiver_id: u64, amount: u128 },
}

/// The farm after a claim of asset class `token_type` by the position at
/// index `i`, as of `now`: the class and the compounding class are settled,
/// the settled claimable amount moves into a fresh reward lock entry (its
/// duration the farm's reward vesting bound) and into the position's and
/// the farm's reward balances, and the class checkpoint advances to `now`
/// (never backwards).
/// For the reward class this is settlement alone; for an unknown class
/// nothing changes. `None` marks a checked-arithmetic failure.
pub open spec fn claim_reward_farm(farm: FarmInfoView, i: int, token_type: u8, now: u64) -> Option<
    FarmInfoView,
> {
    if token_type == 2 {
        settle_farm(farm, 2, now)
    } else if token_type == 0 || token_type == 1 {
        match settle_farm(farm, token_type, now) {
            Option::None => Option::None,
            Option::Some(f1) => match settle_farm(f1, 2, now) {
                Option::None => Option::None,
                Option::Some(f2) => {
                    let st = f2.stake_infos[i];
                    let claim = if token_type == 0 {
                        st.reward_token_to_claim
                    } else {
                        st.reward_lp_to_claim
                    };
                    if now + f2.max_reward_vesting_duration <= u64::MAX && st.reward_amount + claim
                        <= u128::MAX && f2.total_reward_amount + claim <= u128::MAX {
                        let st1 = if token_type == 0 {
                            StakeInfoView {
                                reward_token_to_claim: 0,
                                claimed_token_at: if now > st.claimed_token_at {
                                    now
                                } else {
                                    st.claimed_token_at
                                },
                                ..st
                            }
                        } else {
                            StakeInfoView {
                                reward_lp_to_claim: 0,
                                claimed_lp_at: if now > st.claimed_lp_at {
                                    now
                                } else {
                                    st.claimed_lp_at
                                },
                                ..st
                            }
                        };
                        let st2 = StakeInfoView {
                            token_locked: st1.token_locked.push(0),
                            lp_share_locked: st1.lp_share_locked.push(0),
                            reward_locked: st1.reward_locked.push(claim),
                            unlocked_at: st1.unlocked_at.push(
                                (now + f2.max_reward_vesting_duration) as u64,
                            ),
                            staking_duration: st1.staking_duration.push(
                                f2.max_reward_vesting_duration,
                            ),
                            reward_amount: (st1.reward_amount + claim) as u128,
                            ..st1
                        };
                        Option::Some(
                            FarmInfoView {
                                stake_infos: f2.stake_infos.update(i, st2),
                                total_reward_amount: (f2.total_reward_amount + claim) as u128,
                                ..f2
                            },
                        )
                    } else {
                        Option::None
                    }
                },
            },
        }
    } else {
        Option::Some(farm)
    }
}

/// The balance of the asset class `token_type` in a position.
pub open spec fn class_balance(st: StakeInfoView, token_type: u8) -> u128 {
    if token_type == 0 {
        st.token_amount
    } else if token_type == 1 {
        st.lp_share_amount
    } else if token_type == 2 {
        st.reward_amount
    } else {
        0
    }
}

/// The still-locked part of the asset class `token_type` in a position at
/// time `now`.
pub open spec fn class_locked(st: StakeInfoView, token_type: u8, now: u64) -> int {
    if token_type == 0 {
        locked_sum(st.token_locked, st.unlocked_at, now)
    } else if token_type == 1 {
        locked_sum(st.lp_share_locked, st.unlocked_at, now)
    } else if token_type == 2 {
        locked_sum(st.reward_locked, st.unlocked_at, now)
    } else {
        0
    }
}

/// The withdrawal availability check passes: the locked sum is computable
/// and `amount` does not exceed the unlocked part of the balance. An
/// unknown class is never checked.
pub open spec fn unstake_available_ok(
    st: StakeInfoView,
    token_type: u8,
    amount: u128,
    now: u64,
) -> bool {
    if token_type == 0 || token_type == 1 || token_type == 2 {
        &&& class_locked(st, token_type, now) <= u128::MAX
        &&& class_locked(st, token_type, now) <= class_balance(st, token_type)
        &&& amount <= class_balance(st, token_type) - class_locked(st, token_type, now)
    } else {
        true
    }
}

/// The farm as a withdrawal sees it: the withdrawn class is settled, and
/// for the token and LP classes the compounding class is settled too.
/// `None` marks a checked-arithmetic failure in a settlement.
pub open spec fn unstake_settled_farm(farm: FarmInfoView, token_type: u8, now: u64) -> Option<
    FarmInfoView,
> {
    match settle_farm(farm, token_type, now) {
        Option::None => Option::None,
        Option::Some(f1) => if token_type == 0 || token_type == 1 {
            settle_farm(f1, 2, now)
        } else {
            Option::Some(f1)
        },
    }
}

/// The debit a withdrawal applies to the settled farm `fs`: the position
/// at index `i` loses `amount` of the class and a weight shrunk
/// proportionally to the withdrawn share of its balance, and both leave
/// the farm's totals. The reward class carries no weight; an unknown
/// class changes nothing. `None` marks a checked-arithmetic failure.
pub open spec fn unstake_debit(fs: FarmInfoView, i: int, token_type: u8, amount: u128) -> Option<
    FarmInfoView,
> {
    if token_type == 0 {
        let st = fs.stake_infos[i];
        match ck_mul(
            ck_div(
                ck_mul(ck_div(Some(st.token_weight), UNSTAKE_WEIGHT_SCALE), amount),
                st.token_amount,
            ),
            UNSTAKE_WEIGHT_SCALE,
        ) {
            Option::None => Option::None,
            Option::Some(rw) => if st.token_weight >= rw && fs.total_token_weight >= rw
                && st.token_amount >= amount && fs.total_token_amount >= amount {
                Option::Some(
                    FarmInfoView {
                        stake_infos: fs.stake_infos.update(
                            i,
                            StakeInfoView {
                                token_weight: (st.token_weight - rw) as u128,
                                token_amount: (st.token_amount - amount) as u128,
                                ..st
                            },
                        ),
                        total_token_weight: (fs.total_token_weight - rw) as u128,
                        total_token_amount: (fs.total_token_amount - amount) as u128,
                        ..fs
                    },
                )
            } else {
                Option::None
            },
        }
    } else if token_type == 1 {
        let st = fs.stake_infos[i];
        match ck_mul(
            ck_div(
                ck_mul(ck_div(Some(st.lp_share_weight), UNSTAKE_WEIGHT_SCALE), amount),
                st.lp_share_amount,
            ),
            UNSTAKE_WEIGHT_SCALE,
        ) {
            Option::None => Option::None,
            Option::Some(rw) => if st.lp_share_weight >= rw && fs.total_lp_share_weight >= rw
                && st.lp_share_amount >= amount && fs.total_lp_share_amount >= amount {
                Option::Some(
                    FarmInfoView {
                        stake_infos: fs.stake_infos.update(
                            i,
                            StakeInfoView {
                                lp_share_weight: (st.lp_share_weight - rw) as u128,
                                lp_share_amount: (st.lp_share_amount - amount) as u128,
                                ..st
                            },
                        ),
                        total_lp_share_weight: (fs.total_lp_share_weight - rw) as u128,
                        total_lp_share_amount: (fs.total_lp_share_amount - amount) as u128,
                        ..fs
                    },
                )
            } else {
                Option::None
            },
        }
    } else if token_type == 2 {
        let st = fs.stake_infos[i];
        if st.reward_amount >= amount && fs.total_reward_amount >= amount {
            Option::Some(
                FarmInfoView {
                    stake_infos: fs.stake_infos.update(
                        i,
                        StakeInfoView { reward_amount: (st.reward_amount - amount) as u128, ..st },
                    ),
                    total_reward_amount: (fs.total_reward_amount - amount) as u128,
                    ..fs
                },
            )
        } else {
            Option::None
        }
    } else {
        Option::Some(fs)
    }
}

/// The farm after a withdrawal of `amount` of asset class `token_type` by
/// the position at index `i`, as of `now`: the class and (for token and
/// LP withdrawals) the compounding class are settled first, then the
/// settled farm is debited. `None` marks a checked-arithmetic failure.
pub open spec fn unstake_farm(
    farm: FarmInfoView,
    i: int,
    token_type: u8,
    amount: u128,
    now: u64,
) -> Option<FarmInfoView> {
    match unstake_settled_farm(farm, token_type, now) {
        Option::None => Option::None,
        Option::Some(fs) => unstake_debit(fs, i, token_type, amount),
    }
}

/// The transfer the host owes after a successful withdrawal.
pub open spec fn unstake_action(
    farm: FarmInfoView,
    caller: u64,
    token_type: u8,
    amount: u128,
) -> Option<TransferAction> {
    if token_type == 0 || token_type == 2 {
        Option::Some(TransferAction::Ft { token_id: farm.token_id, receiver_id: caller, amount })
    } else if token_type == 1 {
        Option::Some(TransferAction::Mft { pool_id: farm.pool_id, receiver_id: caller, amount })
    } else {
        Option::None
    }
}


impl crate::Contract {
    /// Claim the settled reward of asset class `token_type` in farm
    /// `farm_id` for `caller` as of `now`: the claimed amount is re-staked
    /// as a fresh reward lock entry vesting over the farm's reward vesting
    /// bound. For the reward class this is a bare settlement. On any error
    /// the ledger is unchanged.
    #[verifier::rlimit(60)]
    pub fn claim_reward(&mut self, caller: u64, farm_id: u16, token_type: u8, now: u64) -> (r:
        Result<(), StakingError>)
        requires
            old(self)@.wf(),
        ensures
            final(self)@.wf(),
            match r {
                Ok(()) => (farm_id as int) < old(self)@.farm_infos.len() && ({
                    let farm = old(self)@.farm_infos[farm_id as int];
                    &&& !(token_type == 0 && farm.farm_type == 1)
                    &&& !(token_type == 1 && farm.farm_type == 0)
                    &&& if token_type == 2 {
                        settle_farm(farm, 2, now) is Some && final(self)@
                            == (crate::ContractView {
                            farm_infos: old(self)@.farm_infos.update(
                                farm_id as int,
                                settle_farm(farm, 2, now)->0,
                            ),
                            ..old(self)@
                        })
                    } else {
                        exists|i: int|
                            #![auto]
                            0 <= i < farm.stake_infos.len() && farm.stake_infos[i].owner_id
                                == caller && claim_reward_farm(farm, i, token_type, now) is Some
                                && final(self)@ == (crate::ContractView {
                                farm_infos: old(self)@.farm_infos.update(
                                    farm_id as int,
                                    claim_reward_farm(farm, i, token_type, now)->0,
                                ),
                                ..old(self)@
                            })
                    }
                }),
                Err(e) => final(self)@ == old(self)@ && (e == StakingError::InvalidReference || e
                    == StakingError::Arithmetic),
            },
            r is Err && r->Err_0 == StakingError::InvalidReference ==> (
            (farm_id as int) >= old(self)@.farm_infos.len() || ({
                let farm = old(self)@.farm_infos[farm_id as int];
                ||| token_type == 0 && farm.farm_type == 1
                ||| token_type == 1 && farm.farm_type == 0
                ||| token_type != 2 && (forall|i: int|
                    #![auto]
                    0 <= i < farm.stake_infos.len() ==> farm.stake_infos[i].owner_id != caller)
            })),
            r is Err && r->Err_0 == StakingError::Arithmetic ==> ({
                let farm = old(self)@.farm_infos[farm_id as int];
                ||| token_type == 2 && settle_farm(farm, 2, now) is None
                ||| (token_type == 0 || token_type == 1) && (exists|i: int|
                    #![auto]
                    0 <= i < farm.stake_infos.len() && farm.stake_infos[i].owner_id == caller
                        && claim_reward_farm(farm, i, token_type, now) is None)
            }),
    {
        if (farm_id as usize) >= self.farm_infos.len() {
            return Err(StakingError::InvalidReference);
        }
        let farm_ref = &self.farm_infos[farm_id as usize];
        let ghost gfarm = self@.farm_infos[farm_id as int];
        if token_type == 0 && farm_ref.farm_type == 1 {
            return Err(StakingError::InvalidReference);
        }
        if token_type == 1 && farm_ref.farm_type == 0 {
            return Err(StakingError::InvalidReference);
        }
        if token_type == 2 {
            let settled = match settled_farm_value(farm_ref, 2, now) {
                Ok(v) => v,
                Err(e) => { return Err(e) },
            };
            let ghost pre = self@;
            self.farm_infos.set(farm_id as usize, settled);
            proof {
                assert(self@ =~= (crate::ContractView {
                    farm_infos: pre.farm_infos.update(
                        farm_id as int,
                        settle_farm(gfarm, 2, now)->0,
                    ),
                    ..pre
                }));
                assert forall|k: int| 0 <= k < self@.farm_infos.len() implies (
                #[trigger] self@.farm_infos[k]).wf() by {
                    if k != farm_id as int {
                        assert(self@.farm_infos[k] == pre.farm_infos[k]);
                    }
                }
            }
            return Ok(());
        }
        let idx = match farm_ref.find_stake(caller) {
            Option::Some(i) => i,
            Option::None => { return Err(StakingError::InvalidReference) },
        };
        if !(token_type == 0 || token_type == 1) {
            proof {
                assert(claim_reward_farm(gfarm, idx as int, token_type, now) == Some(gfarm));
                assert(self@ =~= (crate::ContractView {
                    farm_infos: self@.farm_infos.update(farm_id as int, gfarm),
                    ..self@
                }));
            }
            return Ok(());
        }
        let f1 = match settled_farm_value(farm_ref, token_type, now) {
            Ok(v) => v,
            Err(e) => { return Err(e) },
        };
        let mut f2 = match settled_farm_value(&f1, 2, now) {
            Ok(v) => v,
            Err(e) => { return Err(e) },
        };
        proof {
            lemma_settle_farm_shape(gfarm, token_type, now);
            lemma_settle_farm_shape(f1@, 2, now);
            assert(f2@.stake_infos[idx as int].owner_id == caller);
            assert(f2@.stake_infos[idx as int].wf());
        }
        let mut st2 = copy_stake_info(&f2.stake_infos[idx]);
        let claim: u128 = if token_type == 0 {
            st2.reward_token_to_claim
        } else {
            st2.reward_lp_to_claim
        };
        let unlock = match now.checked_add(f2.max_reward_vesting_duration) {
            Option::Some(v) => v,
            Option::None => { return Err(StakingError::Arithmetic) },
        };
        let new_reward_amount = match st2.reward_amount.checked_add(claim) {
            Option::Some(v) => v,
            Option::None => { return Err(StakingError::Arithmetic) },
        };
        let new_total = match f2.total_reward_amount.checked_add(claim) {
            Option::Some(v) => v,
            Option::None => { return Err(StakingError::Arithmetic) },
        };
        if token_type == 0 {
            st2.reward_token_to_claim = 0;
            if now > st2.claimed_token_at {
                st2.claimed_token_at = now;
            }
        } else {
            st2.reward_lp_to_claim = 0;
            if now > st2.claimed_lp_at {
                st2.claimed_lp_at = now;
            }
        }
        st2.token_locked.push(0);
        st2.lp_share_locked.push(0);
        st2.reward_locked.push(claim);
        st2.unlocked_at.push(unlock);
        st2.staking_duration.push(f2.max_reward_vesting_duration);
        st2.reward_amount = new_reward_amount;
        let ghost gst2 = st2@;
        f2.stake_infos.set(idx, st2);
        f2.total_reward_amount = new_total;
        let ghost gf2 = f2@;
        proof {
            assert(gf2.stake_infos =~= settle_farm(f1@, 2, now)->0.stake_infos.update(
                idx as int,
                gst2,
            ));
            assert(gf2 =~= claim_reward_farm(gfarm, idx as int, token_type, now)->0);
        }
        let ghost pre = self@;
        self.farm_infos.set(farm_id as usize, f2);
        proof {
            assert(self@ =~= (crate::ContractView {
                farm_infos: pre.farm_infos.update(
                    farm_id as int,
                    claim_reward_farm(gfarm, idx as int, token_type, now)->0,
                ),
                ..pre
            }));
            assert forall|k: int| 0 <= k < self@.farm_infos.len() implies (
            #[trigger] self@.farm_infos[k]).wf() by {
                if k != farm_id as int {
                    assert(self@.farm_infos[k] == pre.farm_infos[k]);
                } else {
                    assert(self@.farm_infos[k] == gf2);
                }
            }
        }
        Ok(())
    }

    /// Withdraw `amount` of asset class `token_type` from `caller`'s
    /// position in farm `farm_id` as of `now`. The class and (for token
    /// and LP withdrawals) the compounding class are settled first; only
    /// the unlocked part of the settled balance may leave, the position's
    /// weight shrinks proportionally, and the returned action tells the
    /// host what to transfer out of custody. On any error the ledger is
    /// unchanged and nothing is owed.
    #[verifier::rlimit(60)]
    pub fn unstake(&mut self, caller: u64, farm_id: u16, token_type: u8, amount: u128, now: u64) -> (r:
        Result<Option<TransferAction>, StakingError>)
        requires
            old(self)@.wf(),
        ensures
            final(self)@.wf(),
            match r {
                Ok(a) => (farm_id as int) < old(self)@.farm_infos.len() && ({
                    let farm = old(self)@.farm_infos[farm_id as int];
                    &&& !(token_type == 0 && farm.farm_type == 1)
                    &&& !(token_type == 1 && farm.farm_type == 0)
                    &&& a == unstake_action(farm, caller, token_type, amount)
                    &&& exists|i: int|
                        #![auto]
                        0 <= i < farm.stake_infos.len() && farm.stake_infos[i].owner_id == caller
                            && unstake_settled_farm(farm, token_type, now) is Some
                            && unstake_available_ok(
                            unstake_settled_farm(farm, token_type, now)->0.stake_infos[i],
                            token_type,
                            amount,
                            now,
                        ) && unstake_farm(farm, i, token_type, amount, now) is Some
                            && final(self)@ == (crate::ContractView {
                            farm_infos: old(self)@.farm_infos.update(
                                farm_id as int,
                                unstake_farm(farm, i, token_type, amount, now)->0,
                            ),
                            ..old(self)@
                        })
                }),
                Err(e) => final(self)@ == old(self)@ && (e == StakingError::InvalidReference || e
                    == StakingError::InsufficientUnlocked || e == StakingError::Arithmetic),
            },
            r is Err && r->Err_0 == StakingError::InvalidReference ==> (
            (farm_id as int) >= old(self)@.farm_infos.len() || ({
                let farm = old(self)@.farm_infos[farm_id as int];
                ||| token_type == 0 && farm.farm_type == 1
                ||| token_type == 1 && farm.farm_type == 0
                ||| forall|i: int|
                    #![auto]
                    0 <= i < farm.stake_infos.len() ==> farm.stake_infos[i].owner_id != caller
            })),
            r is Err && r->Err_0 == StakingError::InsufficientUnlocked ==> (exists|i: int|
                #![trigger old(self)@.farm_infos[farm_id as int].stake_infos[i]]
                0 <= i < old(self)@.farm_infos[farm_id as int].stake_infos.len() && ({
                    let farm = old(self)@.farm_infos[farm_id as int];
                    &&& farm.stake_infos[i].owner_id == caller
                    &&& unstake_settled_farm(farm, token_type, now) is Some
                    &&& ({
                        let st = unstake_settled_farm(farm, token_type, now)->0.stake_infos[i];
                        class_locked(st, token_type, now) <= class_balance(st, token_type)
                            && amount > class_balance(st, token_type) - class_locked(
                            st,
                            token_type,
                            now,
                        )
                    })
                })),
            r is Err && r->Err_0 == StakingError::Arithmetic ==> (exists|i: int|
                #![trigger old(self)@.farm_infos[farm_id as int].stake_infos[i]]
                0 <= i < old(self)@.farm_infos[farm_id as int].stake_infos.len() && ({
                    let farm = old(self)@.farm_infos[farm_id as int];
                    &&& farm.stake_infos[i].owner_id == caller
                    &&& (unstake_settled_farm(farm, token_type, now) is None || ({
                        let fs = unstake_settled_farm(farm, token_type, now)->0;
                        let st = fs.stake_infos[i];
                        ||| class_locked(st, token_type, now) > u128::MAX
                        ||| class_locked(st, token_type, now) > class_balance(st, token_type)
                        ||| (unstake_available_ok(st, token_type, amount, now) && unstake_debit(
                            fs,
                            i,
                            token_type,
                            amount,
                        ) is None)
                    }))
                })),
    {
        if (farm_id as usize) >= self.farm_infos.len() {
            return Err(StakingError::InvalidReference);
        }
        let farm_ref = &self.farm_infos[farm_id as usize];
        let ghost gfarm = self@.farm_infos[farm_id as int];
        let idx = match farm_ref.find_stake(caller) {
            Option::Some(i) => i,
            Option::None => { return Err(StakingError::InvalidReference) },
        };
        if token_type == 0 && farm_ref.farm_type == 1 {
            return Err(StakingError::InvalidReference);
        }
        if token_type == 1 && farm_ref.farm_type == 0 {
            return Err(StakingError::InvalidReference);
        }
        proof {
            assert(gfarm.wf());
        }
        let f1 = match settled_farm_value(farm_ref, token_type, now) {
            Ok(v) => v,
            Err(e) => {
                proof {
                    assert(unstake_settled_farm(gfarm, token_type, now) is None);
                }
                return Err(e);
            },
        };
        proof {
            lemma_settle_farm_shape(gfarm, token_type, now);
        }
        let fs: FarmInfo;
        if token_type == 0 || token_type == 1 {
            fs = match settled_farm_value(&f1, 2, now) {
                Ok(v) => v,
                Err(e) => {
                    proof {
                        assert(unstake_settled_farm(gfarm, token_type, now) is None);
                    }
                    return Err(e);
                },
            };
            proof {
                lemma_settle_farm_shape(f1@, 2, now);
            }
        } else {
            fs = f1;
        }
        let ghost gfs = fs@;
        proof {
            assert(unstake_settled_farm(gfarm, token_type, now) == Some(gfs));
            assert(gfs.stake_infos[idx as int].owner_id == caller);
            assert(gfs.stake_infos[idx as int].wf());
        }
        if token_type == 0 || token_type == 1 || token_type == 2 {
            let st_ref = &fs.stake_infos[idx];
            let locked_res = if token_type == 0 {
                locked_amount_of(&st_ref.token_locked, &st_ref.unlocked_at, now)
            } else if token_type == 1 {
                locked_amount_of(&st_ref.lp_share_locked, &st_ref.unlocked_at, now)
            } else {
                locked_amount_of(&st_ref.reward_locked, &st_ref.unlocked_at, now)
            };
            let locked = match locked_res {
                Ok(v) => v,
                Err(e) => { return Err(e) },
            };
            let balance: u128 = if token_type == 0 {
                st_ref.token_amount
            } else if token_type == 1 {
                st_ref.lp_share_amount
            } else {
                st_ref.reward_amount
            };
            let available = match balance.checked_sub(locked) {
                Option::Some(v) => v,
                Option::None => { return Err(StakingError::Arithmetic) },
            };
            if amount > available {
                return Err(StakingError::InsufficientUnlocked);
            }
            proof {
                assert(unstake_available_ok(
                    gfs.stake_infos[idx as int],
                    token_type,
                    amount,
                    now,
                ));
            }
        }
        let action: Option<TransferAction>;
        let mut f2 = fs;
        if token_type == 0 {
            let mut st2 = copy_stake_info(&f2.stake_infos[idx]);
            let q: u128 = st2.token_weight / UNSTAKE_WEIGHT_SCALE;
            let m1 = match q.checked_mul(amount) {
                Option::Some(v) => v,
                Option::None => { return Err(StakingError::Arithmetic) },
            };
            let d1 = match m1.checked_div(st2.token_amount) {
                Option::Some(v) => v,
                Option::None => { return Err(StakingError::Arithmetic) },
            };
            let rw = match d1.checked_mul(UNSTAKE_WEIGHT_SCALE) {
                Option::Some(v) => v,
                Option::None => { return Err(StakingError::Arithmetic) },
            };
            let new_w = match st2.token_weight.checked_sub(rw) {
                Option::Some(v) => v,
                Option::None => { return Err(StakingError::Arithmetic) },
            };
            let new_tw = match f2.total_token_weight.checked_sub(rw) {
                Option::Some(v) => v,
                Option::None => { return Err(StakingError::Arithmetic) },
            };
            let new_a = match st2.token_amount.checked_sub(amount) {
                Option::Some(v) => v,
                Option::None => { return Err(StakingError::Arithmetic) },
            };
            let new_ta = match f2.total_token_amount.checked_sub(amount) {
                Option::Some(v) => v,
                Option::None => { return Err(StakingError::Arithmetic) },
            };
            st2.token_weight = new_w;
            st2.token_amount = new_a;
            f2.stake_infos.set(idx, st2);
            f2.total_token_weight = new_tw;
            f2.total_token_amount = new_ta;
            action = Option::Some(
                TransferAction::Ft { token_id: f2.token_id, receiver_id: caller, amount },
            );
        } else if token_type == 1 {
            let mut st2 = copy_stake_info(&f2.stake_infos[idx]);
            let q: u128 = st2.lp_share_weight / UNSTAKE_WEIGHT_SCALE;
            let m1 = match q.checked_mul(amount) {
                Option::Some(v) => v,
                Option::None => { return Err(StakingError::Arithmetic) },
            };
            let d1 = match m1.checked_div(st2.lp_share_amount) {
                Option::Some(v) => v,
                Option::None => { return Err(StakingError::Arithmetic) },
            };
            let rw = match d1.checked_mul(UNSTAKE_WEIGHT_SCALE) {
                Option::Some(v) => v,
                Option::None => { return Err(StakingError::Arithmetic) },
            };
            let new_w = match st2.lp_share_weight.checked_sub(rw) {
                Option::Some(v) => v,
                Option::None => { return Err(StakingError::Arithmetic) },
            };
            let new_tw = match f2.total_lp_share_weight.checked_sub(rw) {
                Option::Some(v) => v,
                Option::None => { return Err(StakingError::Arithmetic) },
            };
            let new_a = match st2.lp_share_amount.checked_sub(amount) {
                Option::Some(v) => v,
                Option::None => { return Err(StakingError::Arithmetic) },
            };
            let new_ta = match f2.total_lp_share_amount.checked_sub(amount) {
                Option::Some(v) => v,
                Option::None => { return Err(StakingError::Arithmetic) },
            };
            st2.lp_share_weight = new_w;
            st2.lp_share_amount = new_a;
            f2.stake_infos.set(idx, st2);
            f2.total_lp_share_weight = new_tw;
            f2.total_lp_share_amount = new_ta;
            action = Option::Some(
                TransferAction::Mft { pool_id: f2.pool_id, receiver_id: caller, amount },
            );
        } else if token_type == 2 {
            let mut st2 = copy_stake_info(&f2.stake_infos[idx]);
            let new_a = match st2.reward_amount.checked_sub(amount) {
                Option::Some(v) => v,
                Option::None => { return Err(StakingError::Arithmetic) },
            };
            let new_ta = match f2.total_reward_amount.checked_sub(amount) {
                Option::Some(v) => v,
                Option::None => { return Err(StakingError::Arithmetic) },
            };
            st2.reward_amount = new_a;
            f2.stake_infos.set(idx, st2);
            f2.total_reward_amount = new_ta;
            action = Option::Some(
                TransferAction::Ft { token_id: f2.token_id, receiver_id: caller, amount },
            );
        } else {
            action = Option::None;
        }
        let ghost gf2 = f2@;
        proof {
            if token_type == 0 || token_type == 1 || token_type == 2 {
                assert(gf2.stake_infos =~= unstake_debit(
                    gfs,
                    idx as int,
                    token_type,
                    amount,
                )->0.stake_infos);
            }
            assert(gf2 =~= unstake_debit(gfs, idx as int, token_type, amount)->0);
            assert(unstake_farm(gfarm, idx as int, token_type, amount, now) == Some(gf2));
        }
        let ghost pre = self@;
        self.farm_infos.set(farm_id as usize, f2);
        proof {
            assert(self@ =~= (crate::ContractView {
                farm_infos: pre.farm_infos.update(
                    farm_id as int,
                    unstake_farm(gfarm, idx as int, token_type, amount, now)->0,
                ),
                ..pre
            }));
            assert forall|k: int| 0 <= k < self@.farm_infos.len() implies (
            #[trigger] self@.farm_infos[k]).wf() by {
                if k != farm_id as int {
                    assert(self@.farm_infos[k] == pre.farm_infos[k]);
                } else {
                    assert(self@.farm_infos[k] == gf2);
                }
            }
        }
        Ok(action)
    }
}

} // verus!