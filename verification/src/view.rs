//! The read-only query surface: flat summaries of farms, positions and
//! conversion pools, with no side effects.
use vstd::prelude::*;

use crate::errors::StakingError;
use crate::internal::pending_claim;
use crate::stake_info::copy_vec_u128;
use crate::stake_info::copy_vec_u64;
use crate::swap::SwapFarmInfoView;
use crate::swap::swap_entry_unstake;

verus! {

/// Flat summary of one farm's parameters and totals.
#[derive(Clone, Copy, Debug, PartialEq, Eq, Structural)]
pub struct FarmSkeletonInfo {
    pub farm_id: u16,
    pub farm_type: u8,
    pub token_id: u64,
    pub token_decimal: u8,
    pub pool_id: u64,
    pub total_token_amount: u128,
    pub total_lp_share_amount: u128,
    pub total_reward_amount: u128,
    pub token_reward_rate: u128,
    pub pool_reward_rate: u128,
    pub reward_reward_rate: u128,
    pub token_weight_rate: u16,
    pub pool_weight_rate: u16,
    pub max_token_vesting_duration: u64,
    pub max_reward_vesting_duration: u64,
    pub starting_at: u64,
    pub ending_at: u64,
    pub total_token_weight: u128,
    pub total_lp_share_weight: u128,
}

/// Flat summary of one stake position.
pub struct StakeSkeletonInfo {
    pub farm_id: u16,
    pub owner_id: u64,
    pub token_amount: u128,
    pub lp_share_amount: u128,
    pub reward_amount: u128,
    pub reward_token_to_claim: u128,
    pub reward_lp_to_claim: u128,
    pub created_at: u64,
    pub claimed_token_at: u64,
    pub claimed_lp_at: u64,
    pub claimed_reward_at: u64,
    pub token_locked: Vec<u128>,
    pub lp_share_locked: Vec<u128>,
    pub reward_locked: Vec<u128>,
    pub unlocked_at: Vec<u64>,
    pub staking_duration: Vec<u64>,
    pub token_weight: u128,
    pub lp_share_weight: u128,
}

/// Flat summary of one conversion position, with the per-entry drawable
/// amounts as of the queried time.
pub struct SwapStakeSkeletonInfo {
    pub owner_id: u64,
    pub token_id: u64,
    pub token_amount: u128,
    pub token_locked: Vec<u128>,
    pub unlocked_at: Vec<u64>,
    pub created_at: u64,
    pub claimed_token_at: Vec<u64>,
    pub unstake_amount: Vec<u128>,
}

/// Flat summary of one conversion-pool draft.
pub struct EditingSwapFarmViewInfo {
    pub token_id: u64,
    pub swap_rate: u128,
    pub min_lock_time: u64,
    pub max_lock_time: u64,
    pub confirmed_admins: Vec<u64>,
}

/// Flat summary of one conversion pool's parameters.
#[derive(Clone, Copy, Debug, PartialEq, Eq, Structural)]
pub struct SwapFarmViewInfo {
    pub token_id: u64,
    pub swap_rate: u128,
    pub min_lock_time: u64,
    pub max_lock_time: u64,
}

/// How many of the pools in `sfs` hold a position for `account`.
pub open spec fn count_swap_stakes(sfs: Seq<SwapFarmInfoView>, account: u64) -> int
    decreases sfs.len(),
{
    if sfs.len() == 0 {
        0
    } else {
        count_swap_stakes(sfs.drop_last(), account) + if crate::deposit::has_swap_stake(
            sfs.last().stake_infos,
            account,
        ) {
            1int
        } else {
            0int
        }
    }
}

/// Whether `el` is an exact summary of `account`'s position in `sf` as of
/// `now`, per-entry drawable amounts included.
pub open spec fn swap_skeleton_ok(
    el: SwapStakeSkeletonInfo,
    sf: SwapFarmInfoView,
    account: u64,
    now: u64,
) -> bool {
    exists|i: int|
        #![auto]
        0 <= i < sf.stake_infos.len() && sf.stake_infos[i].owner_id == account && ({
            let st = sf.stake_infos[i];
            &&& el.owner_id == account
            &&& el.token_id == sf.token_id
            &&& el.token_amount == st.token_amount
            &&& el.token_locked@ == st.token_locked
            &&& el.unlocked_at@ == st.unlocked_at
            &&& el.claimed_token_at@ == st.claimed_token_at
            &&& el.created_at == st.created_at
            &&& el.unstake_amount@.len() == st.token_locked.len()
            &&& forall|e: int|
                0 <= e < st.token_locked.len() ==> swap_entry_unstake(
                    st.token_locked[e],
                    st.unlocked_at[e],
                    st.claimed_token_at[e],
                    sf.min_lock_time,
                    sf.max_lock_time,
                    now,
                ) == Some(#[trigger] el.unstake_amount@[e])
        })
}

impl crate::Contract {
    /// The aggregate amount of `token_id` staked across all farms, zero
    /// where the token was never staked.
    pub fn get_token_staked(&self, token_id: u64) -> (r: u128)
        ensures
            ({
                let ts = self@.token_stake_info;
                ||| (forall|i: int| 0 <= i < ts.len() ==> ts[i].token_id != token_id) && r == 0
                ||| (exists|i: int|
                    0 <= i < ts.len() && ts[i].token_id == token_id && r == ts[i].amount)
            }),
    {
        match self.find_token_staked(token_id) {
            Option::Some(i) => self.token_stake_info[i].amount,
            Option::None => 0,
        }
    }

    /// The aggregate amount of pool `pool_id`'s shares staked across all
    /// farms, zero where the pool was never staked.
    pub fn get_lp_staked(&self, pool_id: u64) -> (r: u128)
        ensures
            ({
                let ps = self@.lp_stake_info;
                ||| (forall|i: int| 0 <= i < ps.len() ==> ps[i].pool_id != pool_id) && r == 0
                ||| (exists|i: int|
                    0 <= i < ps.len() && ps[i].pool_id == pool_id && r == ps[i].amount)
            }),
    {
        match self.find_pool_staked(pool_id) {
            Option::Some(i) => self.lp_stake_info[i].amount,
            Option::None => 0,
        }
    }

    /// How many accounts hold a position in farm `farm_id`.
    pub fn get_supply_staking_informations(&self, farm_id: u16) -> (r: Result<u64, StakingError>)
        ensures
            match r {
                Ok(n) => (farm_id as int) < self@.farm_infos.len() && n == self@.farm_infos[
                    farm_id as int
                ].stake_infos.len(),
                Err(e) => e == StakingError::InvalidReference && (farm_id as int)
                    >= self@.farm_infos.len(),
            },
    {
        if (farm_id as usize) >= self.farm_infos.len() {
            return Err(StakingError::InvalidReference);
        }
        Ok(self.farm_infos[farm_id as usize].stake_infos.len() as u64)
    }

    /// The token-class reward `account_id` could claim from farm `farm_id`
    /// as of `now`.
    pub fn get_token_claim_amount(&self, farm_id: u16, account_id: u64, now: u64) -> (r: Result<
        u128,
        StakingError,
    >)
        requires
            self@.wf(),
        ensures
            match r {
                Ok(v) => (farm_id as int) < self@.farm_infos.len() && (exists|i: int|
                    #![auto]
                    0 <= i < self@.farm_infos[farm_id as int].stake_infos.len() && self@.farm_infos[
                        farm_id as int
                    ].stake_infos[i].owner_id == account_id && pending_claim(
                        self@.farm_infos[farm_id as int],
                        self@.farm_infos[farm_id as int].stake_infos[i],
                        0,
                        now,
                    ) == Some(v)),
                Err(e) => (e == StakingError::InvalidReference && ((farm_id as int)
                    >= self@.farm_infos.len() || (forall|i: int|
                    #![auto]
                    0 <= i < self@.farm_infos[farm_id as int].stake_infos.len()
                        ==> self@.farm_infos[farm_id as int].stake_infos[i].owner_id
                        != account_id))) || (e == StakingError::Arithmetic && (exists|i: int|
                    #![auto]
                    0 <= i < self@.farm_infos[farm_id as int].stake_infos.len() && self@.farm_infos[
                        farm_id as int
                    ].stake_infos[i].owner_id == account_id && pending_claim(
                        self@.farm_infos[farm_id as int],
                        self@.farm_infos[farm_id as int].stake_infos[i],
                        0,
                        now,
                    ) is None)),
            },
    {
        self.claim_amount(farm_id, account_id, 0, now)
    }

    /// The still-locked part of `account_id`'s token balance in farm
    /// `farm_id` at `now`.
    pub fn get_token_locked_amount(&self, farm_id: u16, account_id: u64, now: u64) -> (r: Result<
        u128,
        StakingError,
    >)
        requires
            self@.wf(),
        ensures
            match r {
                Ok(v) => (farm_id as int) < self@.farm_infos.len() && ({
                    let farm = self@.farm_infos[farm_id as int];
                    ||| farm.farm_type == 1 && v == 0
                    ||| farm.farm_type != 1 && (exists|i: int|
                        #![auto]
                        0 <= i < farm.stake_infos.len() && farm.stake_infos[i].owner_id
                            == account_id && v == crate::lock_schedule::locked_sum(
                            farm.stake_infos[i].token_locked,
                            farm.stake_infos[i].unlocked_at,
                            now,
                        ))
                }),
                Err(e) => {
                    ||| e == StakingError::InvalidReference && ((farm_id as int)
                        >= self@.farm_infos.len() || (self@.farm_infos[farm_id as int].farm_type
                        != 1 && (forall|i: int|
                        #![auto]
                        0 <= i < self@.farm_infos[farm_id as int].stake_infos.len()
                            ==> self@.farm_infos[farm_id as int].stake_infos[i].owner_id
                            != account_id)))
                    ||| e == StakingError::Arithmetic && (farm_id as int) < self@.farm_infos.len()
                        && self@.farm_infos[farm_id as int].farm_type != 1 && (exists|i: int|
                        #![auto]
                        0 <= i < self@.farm_infos[farm_id as int].stake_infos.len()
                            && self@.farm_infos[farm_id as int].stake_infos[i].owner_id
                            == account_id && crate::lock_schedule::locked_sum(
                            self@.farm_infos[farm_id as int].stake_infos[i].token_locked,
                            self@.farm_infos[farm_id as int].stake_infos[i].unlocked_at,
                            now,
                        ) > u128::MAX)
                },
            },
    {
        self.token_locked_amount(farm_id, account_id, now)
    }

    /// The LP-class reward `account_id` could claim from farm `farm_id` as
    /// of `now`.
    pub fn get_lp_claim_amount(&self, farm_id: u16, account_id: u64, now: u64) -> (r: Result<
        u128,
        StakingError,
    >)
        requires
            self@.wf(),
        ensures
            match r {
                Ok(v) => (farm_id as int) < self@.farm_infos.len() && (exists|i: int|
                    #![auto]
                    0 <= i < self@.farm_infos[farm_id as int].stake_infos.len() && self@.farm_infos[
                        farm_id as int
                    ].stake_infos[i].owner_id == account_id && pending_claim(
                        self@.farm_infos[farm_id as int],
                        self@.farm_infos[farm_id as int].stake_infos[i],
                        1,
                        now,
                    ) == Some(v)),
                Err(e) => (e == StakingError::InvalidReference && ((farm_id as int)
                    >= self@.farm_infos.len() || (forall|i: int|
                    #![auto]
                    0 <= i < self@.farm_infos[farm_id as int].stake_infos.len()
                        ==> self@.farm_infos[farm_id as int].stake_infos[i].owner_id
                        != account_id))) || (e == StakingError::Arithmetic && (exists|i: int|
                    #![auto]
                    0 <= i < self@.farm_infos[farm_id as int].stake_infos.len() && self@.farm_infos[
                        farm_id as int
                    ].stake_infos[i].owner_id == account_id && pending_claim(
                        self@.farm_infos[farm_id as int],
                        self@.farm_infos[farm_id as int].stake_infos[i],
                        1,
                        now,
                    ) is None)),
            },
    {
        self.claim_amount(farm_id, account_id, 1, now)
    }

    /// The still-locked part of `account_id`'s LP-share balance in farm
    /// `farm_id` at `now`.
    pub fn get_lp_locked_amount(&self, farm_id: u16, account_id: u64, now: u64) -> (r: Result<
        u128,
        StakingError,
    >)
        requires
            self@.wf(),
        ensures
            match r {
                Ok(v) => (farm_id as int) < self@.farm_infos.len() && ({
                    let farm = self@.farm_infos[farm_id as int];
                    ||| farm.farm_type == 0 && v == 0
                    ||| farm.farm_type != 0 && (exists|i: int|
                        #![auto]
                        0 <= i < farm.stake_infos.len() && farm.stake_infos[i].owner_id
                            == account_id && v == crate::lock_schedule::locked_sum(
                            farm.stake_infos[i].lp_share_locked,
                            farm.stake_infos[i].unlocked_at,
                            now,
                        ))
                }),
                Err(e) => {
                    ||| e == StakingError::InvalidReference && ((farm_id as int)
                        >= self@.farm_infos.len() || (self@.farm_infos[farm_id as int].farm_type
                        != 0 && (forall|i: int|
                        #![auto]
                        0 <= i < self@.farm_infos[farm_id as int].stake_infos.len()
                            ==> self@.farm_infos[farm_id as int].stake_infos[i].owner_id
                            != account_id)))
                    ||| e == StakingError::Arithmetic && (farm_id as int) < self@.farm_infos.len()
                        && self@.farm_infos[farm_id as int].farm_type != 0 && (exists|i: int|
                        #![auto]
                        0 <= i < self@.farm_infos[farm_id as int].stake_infos.len()
                            && self@.farm_infos[farm_id as int].stake_infos[i].owner_id
                            == account_id && crate::lock_schedule::locked_sum(
                            self@.farm_infos[farm_id as int].stake_infos[i].lp_share_locked,
                            self@.farm_infos[farm_id as int].stake_infos[i].unlocked_at,
                            now,
                        ) > u128::MAX)
                },
            },
    {
        self.lp_locked_amount(farm_id, account_id, now)
    }

    /// The newly compoundable reward of `account_id` in farm `farm_id` as
    /// of `now`.
    pub fn get_reward_claim_amount(&self, farm_id: u16, account_id: u64, now: u64) -> (r: Result<
        u128,
        StakingError,
    >)
        requires
            self@.wf(),
        ensures
            match r {
                Ok(v) => (farm_id as int) < self@.farm_infos.len() && (exists|i: int|
                    #![auto]
                    0 <= i < self@.farm_infos[farm_id as int].stake_infos.len() && self@.farm_infos[
                        farm_id as int
                    ].stake_infos[i].owner_id == account_id && pending_claim(
                        self@.farm_infos[farm_id as int],
                        self@.farm_infos[farm_id as int].stake_infos[i],
                        2,
                        now,
                    ) == Some(v)),
                Err(e) => (e == StakingError::InvalidReference && ((farm_id as int)
                    >= self@.farm_infos.len() || (forall|i: int|
                    #![auto]
                    0 <= i < self@.farm_infos[farm_id as int].stake_infos.len()
                        ==> self@.farm_infos[farm_id as int].stake_infos[i].owner_id
                        != account_id))) || (e == StakingError::Arithmetic && (exists|i: int|
                    #![auto]
                    0 <= i < self@.farm_infos[farm_id as int].stake_infos.len() && self@.farm_infos[
                        farm_id as int
                    ].stake_infos[i].owner_id == account_id && pending_claim(
                        self@.farm_infos[farm_id as int],
                        self@.farm_infos[farm_id as int].stake_infos[i],
                        2,
                        now,
                    ) is None)),
            },
    {
        self.claim_amount(farm_id, account_id, 2, now)
    }

    /// The still-locked part of `account_id`'s earned-reward balance in
    /// farm `farm_id` at `now`.
    pub fn get_reward_locked_amount(&self, farm_id: u16, account_id: u64, now: u64) -> (r: Result<
        u128,
        StakingError,
    >)
        requires
            self@.wf(),
        ensures
            match r {
                Ok(v) => (farm_id as int) < self@.farm_infos.len() && (exists|i: int|
                    #![auto]
                    0 <= i < self@.farm_infos[farm_id as int].stake_infos.len() && self@.farm_infos[
                        farm_id as int
                    ].stake_infos[i].owner_id == account_id && v
                        == crate::lock_schedule::locked_sum(
                        self@.farm_infos[farm_id as int].stake_infos[i].reward_locked,
                        self@.farm_infos[farm_id as int].stake_infos[i].unlocked_at,
                        now,
                    )),
                Err(e) => {
                    ||| e == StakingError::InvalidReference && ((farm_id as int)
                        >= self@.farm_infos.len() || (forall|i: int|
                        #![auto]
                        0 <= i < self@.farm_infos[farm_id as int].stake_infos.len()
                            ==> self@.farm_infos[farm_id as int].stake_infos[i].owner_id
                            != account_id))
                    ||| e == StakingError::Arithmetic && (farm_id as int) < self@.farm_infos.len()
                        && (exists|i: int|
                        #![auto]
                        0 <= i < self@.farm_infos[farm_id as int].stake_infos.len()
                            && self@.farm_infos[farm_id as int].stake_infos[i].owner_id
                            == account_id && crate::lock_schedule::locked_sum(
                            self@.farm_infos[farm_id as int].stake_infos[i].reward_locked,
                            self@.farm_infos[farm_id as int].stake_infos[i].unlocked_at,
                            now,
                        ) > u128::MAX)
                },
            },
    {
        self.reward_locked_amount(farm_id, account_id, now)
    }

    /// How many farms exist.
    pub fn get_farm_length(&self) -> (r: u64)
        ensures
            r == self@.farm_infos.len(),
    {
        self.farm_infos.len() as u64
    }

    /// A flat summary of farm `farm_id`.
    pub fn get_farm_info(&self, farm_id: u16) -> (r: Result<FarmSkeletonInfo, StakingError>)
        ensures
            match r {
                Ok(v) => (farm_id as int) < self@.farm_infos.len() && ({
                    let farm = self@.farm_infos[farm_id as int];
                    &&& v.farm_id == farm.farm_id
                    &&& v.farm_type == farm.farm_type
                    &&& v.token_id == farm.token_id
                    &&& v.token_decimal == farm.token_decimal
                    &&& v.pool_id == farm.pool_id
                    &&& v.total_token_amount == farm.total_token_amount
                    &&& v.total_lp_share_amount == farm.total_lp_share_amount
                    &&& v.total_reward_amount == farm.total_reward_amount
                    &&& v.token_reward_rate == farm.token_reward_rate
                    &&& v.pool_reward_rate == farm.pool_reward_rate
                    &&& v.reward_reward_rate == farm.reward_reward_rate
                    &&& v.token_weight_rate == farm.token_weight_rate
                    &&& v.pool_weight_rate == farm.pool_weight_rate
                    &&& v.max_token_vesting_duration == farm.max_token_vesting_duration
                    &&& v.max_reward_vesting_duration == farm.max_reward_vesting_duration
                    &&& v.starting_at == farm.starting_at
                    &&& v.ending_at == farm.ending_at
                    &&& v.total_token_weight == farm.total_token_weight
                    &&& v.total_lp_share_weight == farm.total_lp_share_weight
                }),
                Err(e) => e == StakingError::InvalidReference && (farm_id as int)
                    >= self@.farm_infos.len(),
            },
    {
        if (farm_id as usize) >= self.farm_infos.len() {
            return Err(StakingError::InvalidReference);
        }
        let farm = &self.farm_infos[farm_id as usize];
        Ok(
            FarmSkeletonInfo {
                farm_id: farm.farm_id,
                farm_type: farm.farm_type,
                token_id: farm.token_id,
                token_decimal: farm.token_decimal,
                pool_id: farm.pool_id,
                total_token_amount: farm.total_token_amount,
                total_lp_share_amount: farm.total_lp_share_amount,
                total_reward_amount: farm.total_reward_amount,
                token_reward_rate: farm.token_reward_rate,
                pool_reward_rate: farm.pool_reward_rate,
                reward_reward_rate: farm.reward_reward_rate,
                token_weight_rate: farm.token_weight_rate,
                pool_weight_rate: farm.pool_weight_rate,
                max_token_vesting_duration: farm.max_token_vesting_duration,
                max_reward_vesting_duration: farm.max_reward_vesting_duration,
                starting_at: farm.starting_at,
                ending_at: farm.ending_at,
                total_token_weight: farm.total_token_weight,
                total_lp_share_weight: farm.total_lp_share_weight,
            },
        )
    }

    /// `account_id`'s position in farm `farm_id` as a one-element list, or
    /// an empty list where it has none.
    pub fn get_stake_infos_by_ownerid(&self, farm_id: u16, account_id: u64) -> (r: Result<
        Vec<StakeSkeletonInfo>,
        StakingError,
    >)
        ensures
            match r {
                Ok(v) => (farm_id as int) < self@.farm_infos.len() && ({
                    let stakes = self@.farm_infos[farm_id as int].stake_infos;
                    ||| (forall|i: int|
                        0 <= i < stakes.len() ==> (#[trigger] stakes[i]).owner_id != account_id)
                        && v@.len() == 0
                    ||| (exists|i: int|
                        #![auto]
                        0 <= i < stakes.len() && stakes[i].owner_id == account_id && v@.len() == 1
                            && ({
                            let st = stakes[i];
                            let el = v@[0];
                            &&& el.farm_id == farm_id
                            &&& el.owner_id == account_id
                            &&& el.token_amount == st.token_amount
                            &&& el.lp_share_amount == st.lp_share_amount
                            &&& el.reward_amount == st.reward_amount
                            &&& el.reward_token_to_claim == st.reward_token_to_claim
                            &&& el.reward_lp_to_claim == st.reward_lp_to_claim
                            &&& el.created_at == st.created_at
                            &&& el.claimed_token_at == st.claimed_token_at
                            &&& el.claimed_lp_at == st.claimed_lp_at
                            &&& el.claimed_reward_at == st.claimed_reward_at
                            &&& el.token_locked@ == st.token_locked
                            &&& el.lp_share_locked@ == st.lp_share_locked
                            &&& el.reward_locked@ == st.reward_locked
                            &&& el.unlocked_at@ == st.unlocked_at
                            &&& el.staking_duration@ == st.staking_duration
                            &&& el.token_weight == st.token_weight
                            &&& el.lp_share_weight == st.lp_share_weight
                        }))
                }),
                Err(e) => e == StakingError::InvalidReference && (farm_id as int)
                    >= self@.farm_infos.len(),
            },
    {
        if (farm_id as usize) >= self.farm_infos.len() {
            return Err(StakingError::InvalidReference);
        }
        let farm = &self.farm_infos[farm_id as usize];
        let mut out: Vec<StakeSkeletonInfo> = Vec::new();
        match farm.find_stake(account_id) {
            Option::Some(i) => {
                let st = &farm.stake_infos[i];
                out.push(
                    StakeSkeletonInfo {
                        farm_id,
                        owner_id: st.owner_id,
                        token_amount: st.token_amount,
                        lp_share_amount: st.lp_share_amount,
                        reward_amount: st.reward_amount,
                        reward_token_to_claim: st.reward_token_to_claim,
                        reward_lp_to_claim: st.reward_lp_to_claim,
                        created_at: st.created_at,
                        claimed_token_at: st.claimed_token_at,
                        claimed_lp_at: st.claimed_lp_at,
                        claimed_reward_at: st.claimed_reward_at,
                        token_locked: copy_vec_u128(&st.token_locked),
                        lp_share_locked: copy_vec_u128(&st.lp_share_locked),
                        reward_locked: copy_vec_u128(&st.reward_locked),
                        unlocked_at: copy_vec_u64(&st.unlocked_at),
                        staking_duration: copy_vec_u64(&st.staking_duration),
                        token_weight: st.token_weight,
                        lp_share_weight: st.lp_share_weight,
                    },
                );
                Ok(out)
            },
            Option::None => Ok(out),
        }
    }

    /// The token keys of all conversion pools.
    pub fn get_swap_tokens(&self) -> (r: Vec<u64>)
        ensures
            r@.len() == self@.swap_farms.len(),
            forall|i: int|
                0 <= i < r@.len() ==> r@[i] == (#[trigger] self@.swap_farms[i]).token_id,
    {
        let mut out: Vec<u64> = Vec::new();
        let mut i: usize = 0;
        while i < self.swap_farms.len()
            invariant
                i <= self.swap_farms.len(),
                out@.len() == i,
                forall|j: int|
                    0 <= j < i ==> out@[j] == (#[trigger] self@.swap_farms[j]).token_id,
            decreases self.swap_farms.len() - i,
        {
            out.push(self.swap_farms[i].token_id);
            i = i + 1;
        }
        out
    }

    /// Flat summaries of all conversion pools' parameters.
    pub fn get_swap_farm_info(&self) -> (r: Vec<SwapFarmViewInfo>)
        ensures
            r@.len() == self@.swap_farms.len(),
            forall|i: int|
                0 <= i < r@.len() ==> r@[i] == (SwapFarmViewInfo {
                    token_id: (#[trigger] self@.swap_farms[i]).token_id,
                    swap_rate: self@.swap_farms[i].swap_rate,
                    min_lock_time: self@.swap_farms[i].min_lock_time,
                    max_lock_time: self@.swap_farms[i].max_lock_time,
                }),
    {
        let mut out: Vec<SwapFarmViewInfo> = Vec::new();
        let mut i: usize = 0;
        while i < self.swap_farms.len()
            invariant
                i <= self.swap_farms.len(),
                out@.len() == i,
                forall|j: int|
                    0 <= j < i ==> out@[j] == (SwapFarmViewInfo {
                        token_id: (#[trigger] self@.swap_farms[j]).token_id,
                        swap_rate: self@.swap_farms[j].swap_rate,
                        min_lock_time: self@.swap_farms[j].min_lock_time,
                        max_lock_time: self@.swap_farms[j].max_lock_time,
                    }),
            decreases self.swap_farms.len() - i,
        {
            let sf = &self.swap_farms[i];
            out.push(
                SwapFarmViewInfo {
                    token_id: sf.token_id,
                    swap_rate: sf.swap_rate,
                    min_lock_time: sf.min_lock_time,
                    max_lock_time: sf.max_lock_time,
                },
            );
            i = i + 1;
        }
        out
    }

    /// Flat summaries of all conversion-pool drafts.
    pub fn get_editing_swap_farm_info(&self) -> (r: Vec<EditingSwapFarmViewInfo>)
        ensures
            r@.len() == self@.editing_swap_farm_infos.len(),
            forall|i: int|
                0 <= i < r@.len() ==> ({
                    let ed = #[trigger] self@.editing_swap_farm_infos[i];
                    &&& r@[i].token_id == ed.token_id
                    &&& r@[i].swap_rate == ed.swap_rate
                    &&& r@[i].min_lock_time == ed.min_lock_time
                    &&& r@[i].max_lock_time == ed.max_lock_time
                    &&& r@[i].confirmed_admins@ == ed.confirmed_admins
                }),
    {
        let mut out: Vec<EditingSwapFarmViewInfo> = Vec::new();
        let mut i: usize = 0;
        while i < self.editing_swap_farm_infos.len()
            invariant
                i <= self.editing_swap_farm_infos.len(),
                out@.len() == i,
                forall|j: int|
                    0 <= j < i ==> ({
                        let ed = #[trigger] self@.editing_swap_farm_infos[j];
                        &&& out@[j].token_id == ed.token_id
                        &&& out@[j].swap_rate == ed.swap_rate
                        &&& out@[j].min_lock_time == ed.min_lock_time
                        &&& out@[j].max_lock_time == ed.max_lock_time
                        &&& out@[j].confirmed_admins@ == ed.confirmed_admins
                    }),
            decreases self.editing_swap_farm_infos.len() - i,
        {
            let ed = &self.editing_swap_farm_infos[i];
            out.push(
                EditingSwapFarmViewInfo {
                    token_id: ed.token_id,
                    swap_rate: ed.swap_rate,
                    min_lock_time: ed.min_lock_time,
                    max_lock_time: ed.max_lock_time,
                    confirmed_admins: copy_vec_u64(&ed.confirmed_admins),
                },
            );
            i = i + 1;
        }
        out
    }

    /// Flat summaries, one per conversion pool where `account_id` holds a
    /// position, of that position as of `now`.
    pub fn get_swap_stake_info_by_userid(&self, account_id: u64, now: u64) -> (r: Result<
        Vec<SwapStakeSkeletonInfo>,
        StakingError,
    >)
        requires
            self@.wf(),
        ensures
            match r {
                Ok(v) => v@.len() == count_swap_stakes(self@.swap_farms, account_id) && (forall|
                    j: int,
                |
                    0 <= j < v@.len() ==> (exists|k: int|
                        0 <= k < self@.swap_farms.len() && swap_skeleton_ok(
                            #[trigger] v@[j],
                            #[trigger] self@.swap_farms[k],
                            account_id,
                            now,
                        ))),
                Err(e) => e == StakingError::Arithmetic && (exists|k: int, i: int, e2: int|
                    #![auto]
                    0 <= k < self@.swap_farms.len() && 0 <= i < self@.swap_farms[
                        k
                    ].stake_infos.len() && self@.swap_farms[k].stake_infos[i].owner_id
                        == account_id && 0 <= e2 < self@.swap_farms[k].stake_infos[
                        i
                    ].token_locked.len() && swap_entry_unstake(
                        self@.swap_farms[k].stake_infos[i].token_locked[e2],
                        self@.swap_farms[k].stake_infos[i].unlocked_at[e2],
                        self@.swap_farms[k].stake_infos[i].claimed_token_at[e2],
                        self@.swap_farms[k].min_lock_time,
                        self@.swap_farms[k].max_lock_time,
                        now,
                    ) is None),
            },
    {
        let mut out: Vec<SwapStakeSkeletonInfo> = Vec::new();
        let mut k: usize = 0;
        while k < self.swap_farms.len()
            invariant
                k <= self.swap_farms.len(),
                out@.len() == count_swap_stakes(self@.swap_farms.take(k as int), account_id),
                forall|j: int|
                    0 <= j < out@.len() ==> (exists|q: int|
                        0 <= q < self@.swap_farms.len() && swap_skeleton_ok(
                            #[trigger] out@[j],
                            #[trigger] self@.swap_farms[q],
                            account_id,
                            now,
                        )),
            decreases self.swap_farms.len() - k,
        {
            let sf = &self.swap_farms[k];
            proof {
                assert(sf@ == self@.swap_farms[k as int]);
                assert(self@.swap_farms[k as int].wf());
            }
            match sf.find_stake(account_id) {
                Option::Some(i) => {
                    let st = &sf.stake_infos[i];
                    proof {
                        assert(st@.wf());
                    }
                    let amounts = match self.get_swap_unstake_amount(sf.token_id, account_id, now) {
                        Ok(v) => v,
                        Err(e) => {
                            proof {
                                if e == StakingError::InvalidReference {
                                    assert(self@.swap_farms[k as int].token_id == sf@.token_id);
                                    assert(self@.swap_farms[k as int].stake_infos[
                                        i as int
                                    ].owner_id == account_id);
                                    if exists|k2: int|
                                        #![auto]
                                        0 <= k2 < self@.swap_farms.len() && self@.swap_farms[
                                            k2
                                        ].token_id == sf@.token_id && (forall|i2: int|
                                            0 <= i2 < self@.swap_farms[k2].stake_infos.len()
                                                ==> (#[trigger] self@.swap_farms[k2].stake_infos[
                                                i2
                                            ]).owner_id != account_id) {
                                        let k2 = choose|k2: int|
                                            #![auto]
                                            0 <= k2 < self@.swap_farms.len() && self@.swap_farms[
                                                k2
                                            ].token_id == sf@.token_id && (forall|i2: int|
                                                0 <= i2 < self@.swap_farms[
                                                    k2
                                                ].stake_infos.len() ==> (
                                                #[trigger] self@.swap_farms[k2].stake_infos[
                                                    i2
                                                ]).owner_id != account_id);
                                        if k2 != k as int {
                                            assert(self@.swap_farms[k2].token_id
                                                != self@.swap_farms[k as int].token_id);
                                        }
                                        assert(false);
                                    }
                                    assert(false);
                                }
                            }
                            return Err(e);
                        },
                    };
                    proof {
                        assert(crate::deposit::has_swap_stake(sf@.stake_infos, account_id));
                    }
                    let el = SwapStakeSkeletonInfo {
                        owner_id: st.owner_id,
                        token_id: sf.token_id,
                        token_amount: st.token_amount,
                        token_locked: copy_vec_u128(&st.token_locked),
                        unlocked_at: copy_vec_u64(&st.unlocked_at),
                        created_at: st.created_at,
                        claimed_token_at: copy_vec_u64(&st.claimed_token_at),
                        unstake_amount: amounts,
                    };
                    proof {
                        assert(swap_skeleton_ok(el, sf@, account_id, now));
                    }
                    out.push(el);
                },
                Option::None => {
                    proof {
                        assert(!crate::deposit::has_swap_stake(sf@.stake_infos, account_id));
                    }
                },
            }
            proof {
                assert(self@.swap_farms.take(k + 1).drop_last() =~= self@.swap_farms.take(
                    k as int,
                ));
            }
            k = k + 1;
        }
        proof {
            assert(self@.swap_farms.take(self@.swap_farms.len() as int) =~= self@.swap_farms);
        }
        Ok(out)
    }
}

} // verus!
