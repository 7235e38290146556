//! The conversion module: a fixed-rate swap of a foreign token into the
//! reward asset, vested linearly.
//!
//! Each conversion pool is keyed by the foreign token, carries a fixed
//! `swap_rate` and decimal count, and a lock window `[min_lock_time,
//! max_lock_time]`. A converted amount is locked for the pool's full
//! `max_lock_time`; nothing can be drawn inside the first `min_lock_time`,
//! and afterwards the entry unlocks by linear interpolation between the time
//! it was last drawn from and its unlock time.
use vstd::prelude::*;

use crate::errors::StakingError;
use crate::math::VESTING_SCALE;
use crate::math::ck_div;
use crate::math::ck_div_opt;
use crate::math::ck_mul;
use crate::math::ck_mul_opt;
use crate::math::ck_sub;
use crate::stake_info::SwapStakeInfo;
use crate::stake_info::SwapStakeInfoView;
use crate::stake_info::TransferAction;

verus! {

/// Spec-level image of a `SwapFarmInfo`.
#[verifier::ext_equal]
pub ghost struct SwapFarmInfoView {
    pub token_id: u64,
    pub total_token_amount: u128,
    pub max_lock_time: u64,
    pub min_lock_time: u64,
    pub token_decimal: u32,
    pub swap_rate: u128,
    pub stake_infos: Seq<SwapStakeInfoView>,
}

/// One conversion pool: its fixed rate, lock window, and every account's
/// conversion position.
pub struct SwapFarmInfo {
    pub token_id: u64,
    pub total_token_amount: u128,
    pub max_lock_time: u64,
    pub min_lock_time: u64,
    pub token_decimal: u32,
    pub swap_rate: u128,
    pub stake_infos: Vec<SwapStakeInfo>,
}

impl View for SwapFarmInfo {
    type V = SwapFarmInfoView;

    open spec fn view(&self) -> SwapFarmInfoView {
        SwapFarmInfoView {
            token_id: self.token_id,
            total_token_amount: self.total_token_amount,
            max_lock_time: self.max_lock_time,
            min_lock_time: self.min_lock_time,
            token_decimal: self.token_decimal,
            swap_rate: self.swap_rate,
            stake_infos: Seq::new(self.stake_infos@.len(), |i: int| self.stake_infos@[i]@),
        }
    }
}

impl SwapFarmInfoView {
    /// Every position is well-formed and owners are unique.
    pub open spec fn wf(self) -> bool {
        &&& forall|i: int|
            0 <= i < self.stake_infos.len() ==> (#[trigger] self.stake_infos[i]).wf()
        &&& forall|i: int, j: int|
            0 <= i < j < self.stake_infos.len() ==> self.stake_infos[i].owner_id
                != self.stake_infos[j].owner_id
    }
}

impl SwapFarmInfo {
    /// A fresh conversion pool for `token_id`: the given rate and lock
    /// window, no balance, no positions.
    pub fn new(token_id: u64, decimal: u32, min_lock_time: u64, max_lock_time: u64, swap_rate: u128) -> (r: SwapFarmInfo)
        ensures
            r@ == (SwapFarmInfoView {
                token_id,
                total_token_amount: 0,
                max_lock_time,
                min_lock_time,
                token_decimal: decimal,
                swap_rate,
                stake_infos: Seq::empty(),
            }),
            r@.wf(),
    {
        let r = SwapFarmInfo {
            token_id,
            total_token_amount: 0,
            max_lock_time,
            min_lock_time,
            token_decimal: decimal,
            swap_rate,
            stake_infos: Vec::new(),
        };
        proof {
            assert(r@.stake_infos =~= Seq::<SwapStakeInfoView>::empty());
            assert(r@ =~= (SwapFarmInfoView {
                token_id,
                total_token_amount: 0,
                max_lock_time,
                min_lock_time,
                token_decimal: decimal,
                swap_rate,
                stake_infos: Seq::empty(),
            }));
        }
        r
    }

    /// The index of `account_id`'s position in this pool, if it has one.
    pub fn find_stake(&self, account_id: u64) -> (r: Option<usize>)
        ensures
            match r {
                Option::Some(i) => i < self@.stake_infos.len() && self@.stake_infos[
                    i as int
                ].owner_id == account_id,
                Option::None => forall|i: int|
                    0 <= i < self@.stake_infos.len() ==> (#[trigger] self@.stake_infos[
                        i
                    ]).owner_id != account_id,
            },
    {
        let mut i: usize = 0;
        while i < self.stake_infos.len()
            invariant
                i <= self.stake_infos.len(),
                forall|j: int|
                    0 <= j < i ==> (#[trigger] self@.stake_infos[j]).owner_id != account_id,
            decreases self.stake_infos.len() - i,
        {
            if self.stake_infos[i].owner_id == account_id {
                return Option::Some(i);
            }
            i = i + 1;
        }
        Option::None
    }
}

/// An exact copy of a conversion pool, positions included.
pub fn copy_swap_farm_info(sf: &SwapFarmInfo) -> (r: SwapFarmInfo)
    ensures
        r@ == sf@,
{
    let mut stakes: Vec<SwapStakeInfo> = Vec::new();
    let mut i: usize = 0;
    while i < sf.stake_infos.len()
        invariant
            i <= sf.stake_infos.len(),
            stakes@.len() == i,
            forall|j: int| 0 <= j < i ==> (#[trigger] stakes@[j])@ == sf@.stake_infos[j],
        decreases sf.stake_infos.len() - i,
    {
        stakes.push(crate::stake_info::copy_swap_stake_info(&sf.stake_infos[i]));
        i = i + 1;
    }
    let r = SwapFarmInfo {
        token_id: sf.token_id,
        total_token_amount: sf.total_token_amount,
        max_lock_time: sf.max_lock_time,
        min_lock_time: sf.min_lock_time,
        token_decimal: sf.token_decimal,
        swap_rate: sf.swap_rate,
        stake_infos: stakes,
    };
    proof {
        assert(r@.stake_infos =~= sf@.stake_infos);
        assert(r@ =~= sf@);
    }
    r
}

/// Spec-level image of an `EditingSwapFarmInfoData`.
#[verifier::ext_equal]
pub ghost struct EditingSwapFarmInfoDataView {
    pub token_id: u64,
    pub swap_rate: u128,
    pub min_lock_time: u64,
    pub max_lock_time: u64,
    pub confirmed_admins: Seq<u64>,
}

/// Editable draft of a conversion pool's parameters, staged until every
/// admin confirms.
pub struct EditingSwapFarmInfoData {
    pub token_id: u64,
    pub swap_rate: u128,
    pub min_lock_time: u64,
    pub max_lock_time: u64,
    pub confirmed_admins: Vec<u64>,
}

impl View for EditingSwapFarmInfoData {
    type V = EditingSwapFarmInfoDataView;

    open spec fn view(&self) -> EditingSwapFarmInfoDataView {
        EditingSwapFarmInfoDataView {
            token_id: self.token_id,
            swap_rate: self.swap_rate,
            min_lock_time: self.min_lock_time,
            max_lock_time: self.max_lock_time,
            confirmed_admins: self.confirmed_admins@,
        }
    }
}

impl EditingSwapFarmInfoDataView {
    /// No admin is recorded as confirming twice.
    pub open spec fn wf(self) -> bool {
        forall|i: int, j: int|
            0 <= i < j < self.confirmed_admins.len() ==> self.confirmed_admins[i]
                != self.confirmed_admins[j]
    }
}

impl EditingSwapFarmInfoData {
    /// A fresh draft for `token_id` with no confirmations yet.
    pub fn new(token_id: u64, swap_rate: u128, min_lock_time: u64, max_lock_time: u64) -> (r:
        EditingSwapFarmInfoData)
        ensures
            r@ == (EditingSwapFarmInfoDataView {
                token_id,
                swap_rate,
                min_lock_time,
                max_lock_time,
                confirmed_admins: Seq::empty(),
            }),
            r@.wf(),
    {
        let r = EditingSwapFarmInfoData {
            token_id,
            swap_rate,
            min_lock_time,
            max_lock_time,
            confirmed_admins: Vec::new(),
        };
        proof {
            assert(r@ =~= (EditingSwapFarmInfoDataView {
                token_id,
                swap_rate,
                min_lock_time,
                max_lock_time,
                confirmed_admins: Seq::empty(),
            }));
        }
        r
    }
}


/// How much of one conversion lock entry could be drawn at `now`: the full
/// amount once unlocked; nothing while the pool's initial no-vesting window
/// (`min_lock_time` from the entry's start) still runs; otherwise a linear
/// interpolation of the entry between the time it was last drawn from and
/// its unlock time, at the vesting scale. `None` marks a
/// checked-arithmetic failure.
pub open spec fn swap_entry_unstake(
    locked: u128,
    unlock: u64,
    claimed: u64,
    min_lock: u64,
    max_lock: u64,
    now: u64,
) -> Option<u128> {
    if unlock < now {
        Option::Some(locked)
    } else if unlock < max_lock || (unlock - max_lock) + min_lock > u64::MAX {
        Option::None
    } else if (unlock - max_lock) + min_lock > now {
        Option::Some(0u128)
    } else {
        ck_mul(
            ck_div_opt(
                ck_mul_opt(
                    ck_div(Some(locked), VESTING_SCALE),
                    ck_sub(Some(now as u128), claimed as u128),
                ),
                ck_sub(Some(unlock as u128), claimed as u128),
            ),
            VESTING_SCALE,
        )
    }
}

/// Executable form of `swap_entry_unstake`.
pub fn swap_entry_unstake_value(
    locked: u128,
    unlock: u64,
    claimed: u64,
    min_lock: u64,
    max_lock: u64,
    now: u64,
) -> (r: Result<u128, StakingError>)
    ensures
        r is Ok ==> swap_entry_unstake(locked, unlock, claimed, min_lock, max_lock, now) == Some(
            r->Ok_0,
        ),
        r is Err ==> swap_entry_unstake(locked, unlock, claimed, min_lock, max_lock, now) is None
            && r->Err_0 == StakingError::Arithmetic,
{
    if unlock < now {
        return Ok(locked);
    }
    let vest_base = match unlock.checked_sub(max_lock) {
        Option::Some(v) => v,
        Option::None => { return Err(StakingError::Arithmetic) },
    };
    let vest_start = match vest_base.checked_add(min_lock) {
        Option::Some(v) => v,
        Option::None => { return Err(StakingError::Arithmetic) },
    };
    if vest_start > now {
        return Ok(0);
    }
    let q: u128 = locked / VESTING_SCALE;
    let elapsed = match (now as u128).checked_sub(claimed as u128) {
        Option::Some(v) => v,
        Option::None => { return Err(StakingError::Arithmetic) },
    };
    let m1 = match q.checked_mul(elapsed) {
        Option::Some(v) => v,
        Option::None => { return Err(StakingError::Arithmetic) },
    };
    let span = match (unlock as u128).checked_sub(claimed as u128) {
        Option::Some(v) => v,
        Option::None => { return Err(StakingError::Arithmetic) },
    };
    let d1 = match m1.checked_div(span) {
        Option::Some(v) => v,
        Option::None => { return Err(StakingError::Arithmetic) },
    };
    match d1.checked_mul(VESTING_SCALE) {
        Option::Some(v) => Ok(v),
        Option::None => Err(StakingError::Arithmetic),
    }
}

/// The conversion pool after `amount` is drawn from lock entry `id` of the
/// position at index `i` at time `now`: the entry and the balance shrink
/// by `amount` and the entry's vesting base moves to `now`. `None` marks a
/// checked-arithmetic failure.
pub open spec fn unstake_swap_pool(
    sf: SwapFarmInfoView,
    i: int,
    id: int,
    amount: u128,
    now: u64,
) -> Option<SwapFarmInfoView> {
    let st = sf.stake_infos[i];
    if st.token_amount >= amount && st.token_locked[id] >= amount {
        Option::Some(
            SwapFarmInfoView {
                stake_infos: sf.stake_infos.update(
                    i,
                    SwapStakeInfoView {
                        token_amount: (st.token_amount - amount) as u128,
                        token_locked: st.token_locked.update(
                            id,
                            (st.token_locked[id] - amount) as u128,
                        ),
                        claimed_token_at: st.claimed_token_at.update(id, now),
                        ..st
                    },
                ),
                ..sf
            },
        )
    } else {
        Option::None
    }
}


impl crate::Contract {
    /// How much of lock entry `id` of `account_id`'s position in the pool
    /// of `token_id` could be drawn at `now`.
    pub fn get_swap_unstake_amount_by_id(
        &self,
        token_id: u64,
        account_id: u64,
        id: u64,
        now: u64,
    ) -> (r: Result<u128, StakingError>)
        requires
            self@.wf(),
        ensures
            match r {
                Ok(v) => exists|k: int, i: int|
                    #![auto]
                    0 <= k < self@.swap_farms.len() && self@.swap_farms[k].token_id == token_id
                        && 0 <= i < self@.swap_farms[k].stake_infos.len() && self@.swap_farms[
                        k
                    ].stake_infos[i].owner_id == account_id && (id as int) < self@.swap_farms[
                        k
                    ].stake_infos[i].token_locked.len() && swap_entry_unstake(
                        self@.swap_farms[k].stake_infos[i].token_locked[id as int],
                        self@.swap_farms[k].stake_infos[i].unlocked_at[id as int],
                        self@.swap_farms[k].stake_infos[i].claimed_token_at[id as int],
                        self@.swap_farms[k].min_lock_time,
                        self@.swap_farms[k].max_lock_time,
                        now,
                    ) == Some(v),
                Err(e) => {
                    ||| e == StakingError::InvalidReference && ({
                        ||| forall|k: int|
                            0 <= k < self@.swap_farms.len() ==> (#[trigger] self@.swap_farms[
                                k
                            ]).token_id != token_id
                        ||| exists|k: int|
                            #![auto]
                            0 <= k < self@.swap_farms.len() && self@.swap_farms[k].token_id
                                == token_id && (forall|i: int|
                                0 <= i < self@.swap_farms[k].stake_infos.len() ==> (
                                #[trigger] self@.swap_farms[k].stake_infos[i]).owner_id
                                    != account_id)
                        ||| exists|k: int, i: int|
                            #![auto]
                            0 <= k < self@.swap_farms.len() && self@.swap_farms[k].token_id
                                == token_id && 0 <= i < self@.swap_farms[k].stake_infos.len()
                                && self@.swap_farms[k].stake_infos[i].owner_id == account_id && (
                            id as int) >= self@.swap_farms[k].stake_infos[i].token_locked.len()
                    })
                    ||| e == StakingError::Arithmetic && (exists|k: int, i: int|
                        #![auto]
                        0 <= k < self@.swap_farms.len() && self@.swap_farms[k].token_id
                            == token_id && 0 <= i < self@.swap_farms[k].stake_infos.len()
                            && self@.swap_farms[k].stake_infos[i].owner_id == account_id && (
                        id as int) < self@.swap_farms[k].stake_infos[i].token_locked.len()
                            && swap_entry_unstake(
                            self@.swap_farms[k].stake_infos[i].token_locked[id as int],
                            self@.swap_farms[k].stake_infos[i].unlocked_at[id as int],
                            self@.swap_farms[k].stake_infos[i].claimed_token_at[id as int],
                            self@.swap_farms[k].min_lock_time,
                            self@.swap_farms[k].max_lock_time,
                            now,
                        ) is None)
                },
            },
    {
        let k = match self.find_swap_farm(token_id) {
            Option::Some(k) => k,
            Option::None => { return Err(StakingError::InvalidReference) },
        };
        let sf = &self.swap_farms[k];
        let i = match sf.find_stake(account_id) {
            Option::Some(i) => i,
            Option::None => { return Err(StakingError::InvalidReference) },
        };
        let st = &sf.stake_infos[i];
        proof {
            assert(sf@.wf());
            assert(st@.wf());
        }
        if id >= st.token_locked.len() as u64 {
            return Err(StakingError::InvalidReference);
        }
        let idu = id as usize;
        let res = swap_entry_unstake_value(
            st.token_locked[idu],
            st.unlocked_at[idu],
            st.claimed_token_at[idu],
            sf.min_lock_time,
            sf.max_lock_time,
            now,
        );
        proof {
            if res is Ok {
                assert(swap_entry_unstake(
                    self@.swap_farms[k as int].stake_infos[i as int].token_locked[id as int],
                    self@.swap_farms[k as int].stake_infos[i as int].unlocked_at[id as int],
                    self@.swap_farms[k as int].stake_infos[i as int].claimed_token_at[id as int],
                    self@.swap_farms[k as int].min_lock_time,
                    self@.swap_farms[k as int].max_lock_time,
                    now,
                ) == Some(res->Ok_0));
            } else {
                assert(swap_entry_unstake(
                    self@.swap_farms[k as int].stake_infos[i as int].token_locked[id as int],
                    self@.swap_farms[k as int].stake_infos[i as int].unlocked_at[id as int],
                    self@.swap_farms[k as int].stake_infos[i as int].claimed_token_at[id as int],
                    self@.swap_farms[k as int].min_lock_time,
                    self@.swap_farms[k as int].max_lock_time,
                    now,
                ) is None);
            }
        }
        res
    }

    /// How much of each lock entry of `account_id`'s position in the pool
    /// of `token_id` could be drawn at `now`, entry by entry.
    pub fn get_swap_unstake_amount(&self, token_id: u64, account_id: u64, now: u64) -> (r: Result<
        Vec<u128>,
        StakingError,
    >)
        requires
            self@.wf(),
        ensures
            match r {
                Ok(v) => exists|k: int, i: int|
                    #![auto]
                    0 <= k < self@.swap_farms.len() && self@.swap_farms[k].token_id == token_id
                        && 0 <= i < self@.swap_farms[k].stake_infos.len() && self@.swap_farms[
                        k
                    ].stake_infos[i].owner_id == account_id && v@.len() == self@.swap_farms[
                        k
                    ].stake_infos[i].token_locked.len() && (forall|e: int|
                        0 <= e < v@.len() ==> swap_entry_unstake(
                            self@.swap_farms[k].stake_infos[i].token_locked[e],
                            self@.swap_farms[k].stake_infos[i].unlocked_at[e],
                            self@.swap_farms[k].stake_infos[i].claimed_token_at[e],
                            self@.swap_farms[k].min_lock_time,
                            self@.swap_farms[k].max_lock_time,
                            now,
                        ) == Some(#[trigger] v@[e])),
                Err(e) => {
                    ||| e == StakingError::InvalidReference && ({
                        ||| forall|k: int|
                            0 <= k < self@.swap_farms.len() ==> (#[trigger] self@.swap_farms[
                                k
                            ]).token_id != token_id
                        ||| exists|k: int|
                            #![auto]
                            0 <= k < self@.swap_farms.len() && self@.swap_farms[k].token_id
                                == token_id && (forall|i: int|
                                0 <= i < self@.swap_farms[k].stake_infos.len() ==> (
                                #[trigger] self@.swap_farms[k].stake_infos[i]).owner_id
                                    != account_id)
                    })
                    ||| e == StakingError::Arithmetic && (exists|k: int, i: int, e2: int|
                        #![auto]
                        0 <= k < self@.swap_farms.len() && self@.swap_farms[k].token_id
                            == token_id && 0 <= i < self@.swap_farms[k].stake_infos.len()
                            && self@.swap_farms[k].stake_infos[i].owner_id == account_id && 0
                            <= e2 < self@.swap_farms[k].stake_infos[i].token_locked.len()
                            && swap_entry_unstake(
                            self@.swap_farms[k].stake_infos[i].token_locked[e2],
                            self@.swap_farms[k].stake_infos[i].unlocked_at[e2],
                            self@.swap_farms[k].stake_infos[i].claimed_token_at[e2],
                            self@.swap_farms[k].min_lock_time,
                            self@.swap_farms[k].max_lock_time,
                            now,
                        ) is None)
                },
            },
    {
        let k = match self.find_swap_farm(token_id) {
            Option::Some(k) => k,
            Option::None => { return Err(StakingError::InvalidReference) },
        };
        let sf = &self.swap_farms[k];
        let i = match sf.find_stake(account_id) {
            Option::Some(i) => i,
            Option::None => { return Err(StakingError::InvalidReference) },
        };
        let st = &sf.stake_infos[i];
        proof {
            assert(sf@.wf());
            assert(st@.wf());
        }
        let mut out: Vec<u128> = Vec::new();
        let mut e: usize = 0;
        while e < st.token_locked.len()
            invariant
                e <= st.token_locked.len(),
                out@.len() == e,
                st@.wf(),
                st@ == self@.swap_farms[k as int].stake_infos[i as int],
                forall|q: int|
                    0 <= q < e ==> swap_entry_unstake(
                        st@.token_locked[q],
                        st@.unlocked_at[q],
                        st@.claimed_token_at[q],
                        self@.swap_farms[k as int].min_lock_time,
                        self@.swap_farms[k as int].max_lock_time,
                        now,
                    ) == Some(#[trigger] out@[q]),
            decreases st.token_locked.len() - e,
        {
            let v = match swap_entry_unstake_value(
                st.token_locked[e],
                st.unlocked_at[e],
                st.claimed_token_at[e],
                sf.min_lock_time,
                sf.max_lock_time,
                now,
            ) {
                Ok(v) => v,
                Err(err) => {
                    proof {
                        assert(swap_entry_unstake(
                            self@.swap_farms[k as int].stake_infos[i as int].token_locked[
                                e as int
                            ],
                            self@.swap_farms[k as int].stake_infos[i as int].unlocked_at[e as int],
                            self@.swap_farms[k as int].stake_infos[i as int].claimed_token_at[
                                e as int
                            ],
                            self@.swap_farms[k as int].min_lock_time,
                            self@.swap_farms[k as int].max_lock_time,
                            now,
                        ) is None);
                    }
                    return Err(err);
                },
            };
            out.push(v);
            e = e + 1;
        }
        Ok(out)
    }

    /// Draw `amount_2_unstake` from lock entry `id` of `account_id`'s
    /// position in the pool of `token_id` at time `now`. The draw aborts
    /// whenever the amount exceeds the entry's currently vested value;
    /// otherwise the entry and the position's balance are debited and the
    /// entry's vesting base moves to `now`. The returned action tells the host to transfer the drawn
    /// amount of the base token to `account_id`. On any error the ledger
    /// is unchanged and nothing is owed.
    pub fn unstake_swap(
        &mut self,
        token_id: u64,
        account_id: u64,
        id: u64,
        amount_2_unstake: u128,
        now: u64,
    ) -> (r: Result<TransferAction, StakingError>)
        requires
            old(self)@.wf(),
        ensures
            final(self)@.wf(),
            match r {
                Ok(a) => a == (TransferAction::Ft {
                    token_id: crate::DEFAULT_TOKEN_ID,
                    receiver_id: account_id,
                    amount: amount_2_unstake,
                }) && (exists|k: int, i: int|
                    #![auto]
                    0 <= k < old(self)@.swap_farms.len() && old(self)@.swap_farms[k].token_id
                        == token_id && 0 <= i < old(self)@.swap_farms[k].stake_infos.len() && old(
                        self,
                    )@.swap_farms[k].stake_infos[i].owner_id == account_id && (id as int) < old(
                        self,
                    )@.swap_farms[k].stake_infos[i].token_locked.len() && ({
                        let entry_avail = swap_entry_unstake(
                            old(self)@.swap_farms[k].stake_infos[i].token_locked[id as int],
                            old(self)@.swap_farms[k].stake_infos[i].unlocked_at[id as int],
                            old(self)@.swap_farms[k].stake_infos[i].claimed_token_at[id as int],
                            old(self)@.swap_farms[k].min_lock_time,
                            old(self)@.swap_farms[k].max_lock_time,
                            now,
                        );
                        &&& entry_avail is Some
                        &&& amount_2_unstake <= entry_avail->0
                        &&& unstake_swap_pool(
                            old(self)@.swap_farms[k],
                            i,
                            id as int,
                            amount_2_unstake,
                            now,
                        ) is Some
                        &&& final(self)@ == (crate::ContractView {
                            swap_farms: old(self)@.swap_farms.update(
                                k,
                                unstake_swap_pool(
                                    old(self)@.swap_farms[k],
                                    i,
                                    id as int,
                                    amount_2_unstake,
                                    now,
                                )->0,
                            ),
                            ..old(self)@
                        })
                    })),
                Err(e) => final(self)@ == old(self)@ && (e == StakingError::InvalidReference || e
                    == StakingError::InsufficientUnlocked || e == StakingError::Arithmetic),
            },
            r is Err && r->Err_0 == StakingError::InvalidReference ==> ({
                ||| forall|k: int|
                    0 <= k < old(self)@.swap_farms.len() ==> (#[trigger] old(self)@.swap_farms[
                        k
                    ]).token_id != token_id
                ||| exists|k: int|
                    #![auto]
                    0 <= k < old(self)@.swap_farms.len() && old(self)@.swap_farms[k].token_id
                        == token_id && (forall|i: int|
                        0 <= i < old(self)@.swap_farms[k].stake_infos.len() ==> (
                        #[trigger] old(self)@.swap_farms[k].stake_infos[i]).owner_id
                            != account_id)
                ||| exists|k: int, i: int|
                    #![auto]
                    0 <= k < old(self)@.swap_farms.len() && old(self)@.swap_farms[k].token_id
                        == token_id && 0 <= i < old(self)@.swap_farms[k].stake_infos.len() && old(
                        self,
                    )@.swap_farms[k].stake_infos[i].owner_id == account_id && (id as int) >= old(
                        self,
                    )@.swap_farms[k].stake_infos[i].token_locked.len()
            }),
            r is Err && r->Err_0 == StakingError::InsufficientUnlocked ==> (exists|k: int, i: int|
                #![auto]
                0 <= k < old(self)@.swap_farms.len() && old(self)@.swap_farms[k].token_id
                    == token_id && 0 <= i < old(self)@.swap_farms[k].stake_infos.len() && old(
                    self,
                )@.swap_farms[k].stake_infos[i].owner_id == account_id && (id as int) < old(
                    self,
                )@.swap_farms[k].stake_infos[i].token_locked.len() && ({
                    let entry_avail = swap_entry_unstake(
                        old(self)@.swap_farms[k].stake_infos[i].token_locked[id as int],
                        old(self)@.swap_farms[k].stake_infos[i].unlocked_at[id as int],
                        old(self)@.swap_farms[k].stake_infos[i].claimed_token_at[id as int],
                        old(self)@.swap_farms[k].min_lock_time,
                        old(self)@.swap_farms[k].max_lock_time,
                        now,
                    );
                    entry_avail is Some && amount_2_unstake > entry_avail->0
                })),
            r is Err && r->Err_0 == StakingError::Arithmetic ==> (exists|k: int, i: int|
                #![auto]
                0 <= k < old(self)@.swap_farms.len() && old(self)@.swap_farms[k].token_id
                    == token_id && 0 <= i < old(self)@.swap_farms[k].stake_infos.len() && old(
                    self,
                )@.swap_farms[k].stake_infos[i].owner_id == account_id && (id as int) < old(
                    self,
                )@.swap_farms[k].stake_infos[i].token_locked.len() && (swap_entry_unstake(
                    old(self)@.swap_farms[k].stake_infos[i].token_locked[id as int],
                    old(self)@.swap_farms[k].stake_infos[i].unlocked_at[id as int],
                    old(self)@.swap_farms[k].stake_infos[i].claimed_token_at[id as int],
                    old(self)@.swap_farms[k].min_lock_time,
                    old(self)@.swap_farms[k].max_lock_time,
                    now,
                ) is None || unstake_swap_pool(
                    old(self)@.swap_farms[k],
                    i,
                    id as int,
                    amount_2_unstake,
                    now,
                ) is None)),
    {
        let k = match self.find_swap_farm(token_id) {
            Option::Some(k) => k,
            Option::None => { return Err(StakingError::InvalidReference) },
        };
        let ghost gsf = self@.swap_farms[k as int];
        let sf_ref = &self.swap_farms[k];
        let i = match sf_ref.find_stake(account_id) {
            Option::Some(i) => i,
            Option::None => { return Err(StakingError::InvalidReference) },
        };
        let st_ref = &sf_ref.stake_infos[i];
        proof {
            assert(gsf.wf());
            assert(st_ref@.wf());
        }
        if id >= st_ref.token_locked.len() as u64 {
            return Err(StakingError::InvalidReference);
        }
        let idu = id as usize;
        let allowed = match swap_entry_unstake_value(
            st_ref.token_locked[idu],
            st_ref.unlocked_at[idu],
            st_ref.claimed_token_at[idu],
            sf_ref.min_lock_time,
            sf_ref.max_lock_time,
            now,
        ) {
            Ok(v) => v,
            Err(e) => { return Err(e) },
        };
        if amount_2_unstake > allowed {
            return Err(StakingError::InsufficientUnlocked);
        }
        let new_amount = match st_ref.token_amount.checked_sub(amount_2_unstake) {
            Option::Some(v) => v,
            Option::None => { return Err(StakingError::Arithmetic) },
        };
        let new_entry = match st_ref.token_locked[idu].checked_sub(amount_2_unstake) {
            Option::Some(v) => v,
            Option::None => { return Err(StakingError::Arithmetic) },
        };
        let mut st = crate::stake_info::copy_swap_stake_info(st_ref);
        st.token_amount = new_amount;
        st.token_locked.set(idu, new_entry);
        st.claimed_token_at.set(idu, now);
        let mut sf = copy_swap_farm_info(sf_ref);
        let ghost gst2 = st@;
        sf.stake_infos.set(i, st);
        proof {
            assert(sf@.stake_infos =~= unstake_swap_pool(
                gsf,
                i as int,
                id as int,
                amount_2_unstake,
                now,
            )->0.stake_infos);
            assert(sf@ =~= unstake_swap_pool(gsf, i as int, id as int, amount_2_unstake, now)->0);
        }
        let ghost gsf2 = sf@;
        let ghost pre = self@;
        self.swap_farms.set(k, sf);
        proof {
            assert(self@ =~= (crate::ContractView {
                swap_farms: pre.swap_farms.update(
                    k as int,
                    unstake_swap_pool(gsf, i as int, id as int, amount_2_unstake, now)->0,
                ),
                ..pre
            }));
            assert forall|q: int| 0 <= q < self@.swap_farms.len() implies (
            #[trigger] self@.swap_farms[q]).wf() by {
                if q != k as int {
                    assert(self@.swap_farms[q] == pre.swap_farms[q]);
                } else {
                    assert(self@.swap_farms[q] == gsf2);
                }
            }
        }
        Ok(
            TransferAction::Ft {
                token_id: crate::DEFAULT_TOKEN_ID,
                receiver_id: account_id,
                amount: amount_2_unstake,
            },
        )
    }
}


impl crate::Contract {
    /// Create or overwrite the conversion pool of `token_id` with the
    /// given rate, decimal count and lock window, and reset its draft to
    /// the same values with no confirmations. Only the owner may call
    /// this.
    pub fn save_swap_farm(
        &mut self,
        caller: u64,
        token_id: u64,
        swap_rate: u128,
        decimal: u32,
        min_lock_time: u64,
        max_lock_time: u64,
    ) -> (r: Result<(), StakingError>)
        requires
            old(self)@.wf(),
        ensures
            final(self)@.wf(),
            match r {
                Ok(()) => caller == old(self)@.owner_id && ({
                    let sfs = old(self)@.swap_farms;
                    let eds = old(self)@.editing_swap_farm_infos;
                    let new_sfs = if exists|k: int|
                        0 <= k < sfs.len() && (#[trigger] sfs[k]).token_id == token_id {
                        let k = choose|k: int|
                            0 <= k < sfs.len() && (#[trigger] sfs[k]).token_id == token_id;
                        sfs.update(
                            k,
                            (SwapFarmInfoView {
                                min_lock_time,
                                max_lock_time,
                                token_decimal: decimal,
                                swap_rate,
                                ..sfs[k]
                            }),
                        )
                    } else {
                        sfs.push(
                            (SwapFarmInfoView {
                                token_id,
                                total_token_amount: 0,
                                max_lock_time,
                                min_lock_time,
                                token_decimal: decimal,
                                swap_rate,
                                stake_infos: Seq::empty(),
                            }),
                        )
                    };
                    let new_eds = if exists|e: int|
                        0 <= e < eds.len() && (#[trigger] eds[e]).token_id == token_id {
                        let e = choose|e: int|
                            0 <= e < eds.len() && (#[trigger] eds[e]).token_id == token_id;
                        eds.update(
                            e,
                            (EditingSwapFarmInfoDataView {
                                min_lock_time,
                                max_lock_time,
                                swap_rate,
                                confirmed_admins: Seq::empty(),
                                ..eds[e]
                            }),
                        )
                    } else {
                        eds.push(
                            (EditingSwapFarmInfoDataView {
                                token_id,
                                swap_rate,
                                min_lock_time,
                                max_lock_time,
                                confirmed_admins: Seq::empty(),
                            }),
                        )
                    };
                    final(self)@ == (crate::ContractView {
                        swap_farms: new_sfs,
                        editing_swap_farm_infos: new_eds,
                        ..old(self)@
                    })
                }),
                Err(e) => final(self)@ == old(self)@ && e == StakingError::Unauthorized && caller
                    != old(self)@.owner_id,
            },
    {
        if caller != self.owner_id {
            return Err(StakingError::Unauthorized);
        }
        let ghost pre = self@;
        match self.find_swap_farm(token_id) {
            Option::Some(k) => {
                proof {
                    lemma_swap_farm_key_index(pre.swap_farms, token_id, k as int);
                }
                let mut sf = copy_swap_farm_info(&self.swap_farms[k]);
                sf.min_lock_time = min_lock_time;
                sf.max_lock_time = max_lock_time;
                sf.token_decimal = decimal;
                sf.swap_rate = swap_rate;
                let ghost gsf2 = sf@;
                self.swap_farms.set(k, sf);
                proof {
                    assert(self@.swap_farms =~= pre.swap_farms.update(k as int, gsf2));
                    assert forall|q: int| 0 <= q < self@.swap_farms.len() implies (
                    #[trigger] self@.swap_farms[q]).wf() by {
                        if q != k as int {
                            assert(self@.swap_farms[q] == pre.swap_farms[q]);
                        } else {
                            assert(self@.swap_farms[q] == gsf2);
                        }
                    }
                }
            },
            Option::None => {
                let sf = SwapFarmInfo::new(
                    token_id,
                    decimal,
                    min_lock_time,
                    max_lock_time,
                    swap_rate,
                );
                let ghost gsf2 = sf@;
                self.swap_farms.push(sf);
                proof {
                    assert(self@.swap_farms =~= pre.swap_farms.push(gsf2));
                    assert forall|q: int| 0 <= q < self@.swap_farms.len() implies (
                    #[trigger] self@.swap_farms[q]).wf() by {
                        if q < pre.swap_farms.len() {
                            assert(self@.swap_farms[q] == pre.swap_farms[q]);
                        }
                    }
                }
            },
        }
        let ghost mid = self@;
        match self.find_editing_swap_farm(token_id) {
            Option::Some(e) => {
                proof {
                    lemma_editing_swap_key_index(pre.editing_swap_farm_infos, token_id, e as int);
                }
                let mut ed = EditingSwapFarmInfoData {
                    token_id: self.editing_swap_farm_infos[e].token_id,
                    swap_rate,
                    min_lock_time,
                    max_lock_time,
                    confirmed_admins: Vec::new(),
                };
                let ghost ged2 = ed@;
                self.editing_swap_farm_infos.set(e, ed);
                proof {
                    assert(self@.editing_swap_farm_infos =~= mid.editing_swap_farm_infos.update(
                        e as int,
                        ged2,
                    ));
                }
            },
            Option::None => {
                let ed = EditingSwapFarmInfoData::new(
                    token_id,
                    swap_rate,
                    min_lock_time,
                    max_lock_time,
                );
                let ghost ged2 = ed@;
                self.editing_swap_farm_infos.push(ed);
                proof {
                    assert(self@.editing_swap_farm_infos =~= mid.editing_swap_farm_infos.push(
                        ged2,
                    ));
                }
            },
        }
        proof {
            assert(self@ =~= (crate::ContractView {
                swap_farms: mid.swap_farms,
                editing_swap_farm_infos: self@.editing_swap_farm_infos,
                ..pre
            }));
        }
        Ok(())
    }

    /// Remove the conversion pool of `token_id` and its draft, if present.
    /// Only the owner may call this.
    pub fn remove_swap_farm(&mut self, caller: u64, token_id: u64) -> (r: Result<
        (),
        StakingError,
    >)
        requires
            old(self)@.wf(),
        ensures
            final(self)@.wf(),
            match r {
                Ok(()) => caller == old(self)@.owner_id && ({
                    let sfs = old(self)@.swap_farms;
                    let eds = old(self)@.editing_swap_farm_infos;
                    let new_sfs = if exists|k: int|
                        0 <= k < sfs.len() && (#[trigger] sfs[k]).token_id == token_id {
                        sfs.remove(
                            choose|k: int|
                                0 <= k < sfs.len() && (#[trigger] sfs[k]).token_id == token_id,
                        )
                    } else {
                        sfs
                    };
                    let new_eds = if exists|e: int|
                        0 <= e < eds.len() && (#[trigger] eds[e]).token_id == token_id {
                        eds.remove(
                            choose|e: int|
                                0 <= e < eds.len() && (#[trigger] eds[e]).token_id == token_id,
                        )
                    } else {
                        eds
                    };
                    final(self)@ == (crate::ContractView {
                        swap_farms: new_sfs,
                        editing_swap_farm_infos: new_eds,
                        ..old(self)@
                    })
                }),
                Err(e) => final(self)@ == old(self)@ && e == StakingError::Unauthorized && caller
                    != old(self)@.owner_id,
            },
    {
        if caller != self.owner_id {
            return Err(StakingError::Unauthorized);
        }
        let ghost pre = self@;
        match self.find_swap_farm(token_id) {
            Option::Some(k) => {
                proof {
                    lemma_swap_farm_key_index(pre.swap_farms, token_id, k as int);
                }
                self.swap_farms.remove(k);
                proof {
                    assert(self@.swap_farms =~= pre.swap_farms.remove(k as int));
                    assert forall|a: int, b: int|
                        0 <= a < b < self@.swap_farms.len() implies self@.swap_farms[a].token_id
                        != self@.swap_farms[b].token_id by {
                        let a0 = if a < k as int {
                            a
                        } else {
                            a + 1
                        };
                        let b0 = if b < k as int {
                            b
                        } else {
                            b + 1
                        };
                        assert(self@.swap_farms[a] == pre.swap_farms[a0]);
                        assert(self@.swap_farms[b] == pre.swap_farms[b0]);
                        assert(pre.swap_farms[a0].token_id != pre.swap_farms[b0].token_id);
                    }
                    assert forall|q: int| 0 <= q < self@.swap_farms.len() implies (
                    #[trigger] self@.swap_farms[q]).wf() by {
                        let q0 = if q < k as int {
                            q
                        } else {
                            q + 1
                        };
                        assert(self@.swap_farms[q] == pre.swap_farms[q0]);
                    }
                }
            },
            Option::None => {},
        }
        let ghost mid = self@;
        match self.find_editing_swap_farm(token_id) {
            Option::Some(e) => {
                proof {
                    lemma_editing_swap_key_index(pre.editing_swap_farm_infos, token_id, e as int);
                }
                self.editing_swap_farm_infos.remove(e);
                proof {
                    assert(self@.editing_swap_farm_infos =~= pre.editing_swap_farm_infos.remove(
                        e as int,
                    ));
                    assert forall|a: int, b: int|
                        0 <= a < b < self@.editing_swap_farm_infos.len() implies
                        self@.editing_swap_farm_infos[a].token_id
                        != self@.editing_swap_farm_infos[b].token_id by {
                        let a0 = if a < e as int {
                            a
                        } else {
                            a + 1
                        };
                        let b0 = if b < e as int {
                            b
                        } else {
                            b + 1
                        };
                        assert(self@.editing_swap_farm_infos[a] == pre.editing_swap_farm_infos[
                            a0
                        ]);
                        assert(self@.editing_swap_farm_infos[b] == pre.editing_swap_farm_infos[
                            b0
                        ]);
                    }
                    assert forall|q: int| 0 <= q < self@.editing_swap_farm_infos.len() implies (
                    #[trigger] self@.editing_swap_farm_infos[q]).wf() by {
                        let q0 = if q < e as int {
                            q
                        } else {
                            q + 1
                        };
                        assert(self@.editing_swap_farm_infos[q] == pre.editing_swap_farm_infos[
                            q0
                        ]);
                    }
                }
            },
            Option::None => {},
        }
        proof {
            assert(self@ =~= (crate::ContractView {
                swap_farms: mid.swap_farms,
                editing_swap_farm_infos: self@.editing_swap_farm_infos,
                ..pre
            }));
        }
        Ok(())
    }
}

/// With unique keys, any index holding `token_id` is the chosen one.
pub proof fn lemma_swap_farm_key_index(s: Seq<SwapFarmInfoView>, token_id: u64, k: int)
    requires
        0 <= k < s.len(),
        s[k].token_id == token_id,
        forall|a: int, b: int| 0 <= a < b < s.len() ==> s[a].token_id != s[b].token_id,
    ensures
        exists|j: int| 0 <= j < s.len() && (#[trigger] s[j]).token_id == token_id,
        (choose|j: int| 0 <= j < s.len() && (#[trigger] s[j]).token_id == token_id) == k,
{
    assert(0 <= k < s.len() && (#[trigger] s[k]).token_id == token_id);
    let j = choose|j: int| 0 <= j < s.len() && (#[trigger] s[j]).token_id == token_id;
    if k < j {
        assert(s[k].token_id != s[j].token_id);
    } else if j < k {
        assert(s[j].token_id != s[k].token_id);
    }
}

/// With unique keys, any index holding `token_id` is the chosen one.
pub proof fn lemma_editing_swap_key_index(
    s: Seq<EditingSwapFarmInfoDataView>,
    token_id: u64,
    k: int,
)
    requires
        0 <= k < s.len(),
        s[k].token_id == token_id,
        forall|a: int, b: int| 0 <= a < b < s.len() ==> s[a].token_id != s[b].token_id,
    ensures
        exists|j: int| 0 <= j < s.len() && (#[trigger] s[j]).token_id == token_id,
        (choose|j: int| 0 <= j < s.len() && (#[trigger] s[j]).token_id == token_id) == k,
{
    assert(0 <= k < s.len() && (#[trigger] s[k]).token_id == token_id);
    let j = choose|j: int| 0 <= j < s.len() && (#[trigger] s[j]).token_id == token_id;
    if k < j {
        assert(s[k].token_id != s[j].token_id);
    } else if j < k {
        assert(s[j].token_id != s[k].token_id);
    }
}


impl crate::Contract {
    /// Stage new parameters for the conversion pool of `token_id`. Only an
    /// admin may call this. Where a draft exists it is overwritten and the
    /// caller's confirmation recorded first; with a single admin that
    /// applies the draft to the pool at once (which must exist). Where no
    /// draft exists a fresh unconfirmed one is created.
    pub fn save_editing_swap_farm_info(
        &mut self,
        caller: u64,
        token_id: u64,
        swap_rate: u128,
        min_lock_time: u64,
        max_lock_time: u64,
    ) -> (r: Result<(), StakingError>)
        requires
            old(self)@.wf(),
        ensures
            final(self)@.wf(),
            match r {
                Ok(()) => old(self)@.admin_ids.contains(caller) && ({
                    let sfs = old(self)@.swap_farms;
                    let eds = old(self)@.editing_swap_farm_infos;
                    if exists|e: int|
                        0 <= e < eds.len() && (#[trigger] eds[e]).token_id == token_id {
                        let e = choose|e: int|
                            0 <= e < eds.len() && (#[trigger] eds[e]).token_id == token_id;
                        if old(self)@.admin_ids.len() == 1 {
                            exists|k: int|
                                #![auto]
                                0 <= k < sfs.len() && sfs[k].token_id == token_id
                                    && final(self)@ == (crate::ContractView {
                                    swap_farms: sfs.update(
                                        k,
                                        (SwapFarmInfoView {
                                            min_lock_time,
                                            max_lock_time,
                                            swap_rate,
                                            ..sfs[k]
                                        }),
                                    ),
                                    editing_swap_farm_infos: eds.update(
                                        e,
                                        (EditingSwapFarmInfoDataView {
                                            swap_rate,
                                            min_lock_time,
                                            max_lock_time,
                                            confirmed_admins: Seq::empty(),
                                            ..eds[e]
                                        }),
                                    ),
                                    ..old(self)@
                                })
                        } else {
                            final(self)@ == (crate::ContractView {
                                editing_swap_farm_infos: eds.update(
                                    e,
                                    (EditingSwapFarmInfoDataView {
                                        swap_rate,
                                        min_lock_time,
                                        max_lock_time,
                                        confirmed_admins: seq![caller],
                                        ..eds[e]
                                    }),
                                ),
                                ..old(self)@
                            })
                        }
                    } else {
                        final(self)@ == (crate::ContractView {
                            editing_swap_farm_infos: eds.push(
                                (EditingSwapFarmInfoDataView {
                                    token_id,
                                    swap_rate,
                                    min_lock_time,
                                    max_lock_time,
                                    confirmed_admins: Seq::empty(),
                                }),
                            ),
                            ..old(self)@
                        })
                    }
                }),
                Err(e) => final(self)@ == old(self)@ && ((e == StakingError::Unauthorized && !old(
                    self,
                )@.admin_ids.contains(caller)) || e == StakingError::InvalidReference),
            },
            r is Err && r->Err_0 == StakingError::InvalidReference ==> old(
                self,
            )@.admin_ids.contains(caller) && old(self)@.admin_ids.len() == 1 && (exists|e: int|
                #![auto]
                0 <= e < old(self)@.editing_swap_farm_infos.len() && old(
                    self,
                )@.editing_swap_farm_infos[e].token_id == token_id) && (forall|k: int|
                0 <= k < old(self)@.swap_farms.len() ==> (#[trigger] old(self)@.swap_farms[
                    k
                ]).token_id != token_id),
    {
        if !self.is_admin(caller) {
            return Err(StakingError::Unauthorized);
        }
        let ghost pre = self@;
        match self.find_editing_swap_farm(token_id) {
            Option::Some(e) => {
                proof {
                    lemma_editing_swap_key_index(pre.editing_swap_farm_infos, token_id, e as int);
                }
                if self.admin_ids.len() == 1 {
                    let k = match self.find_swap_farm(token_id) {
                        Option::Some(k) => k,
                        Option::None => { return Err(StakingError::InvalidReference) },
                    };
                    proof {
                        lemma_swap_farm_key_index(pre.swap_farms, token_id, k as int);
                    }
                    let mut sf = copy_swap_farm_info(&self.swap_farms[k]);
                    sf.min_lock_time = min_lock_time;
                    sf.max_lock_time = max_lock_time;
                    sf.swap_rate = swap_rate;
                    let ghost gsf2 = sf@;
                    self.swap_farms.set(k, sf);
                    let ed = EditingSwapFarmInfoData {
                        token_id: self.editing_swap_farm_infos[e].token_id,
                        swap_rate,
                        min_lock_time,
                        max_lock_time,
                        confirmed_admins: Vec::new(),
                    };
                    let ghost ged2 = ed@;
                    self.editing_swap_farm_infos.set(e, ed);
                    proof {
                        assert(self@ =~= (crate::ContractView {
                            swap_farms: pre.swap_farms.update(k as int, gsf2),
                            editing_swap_farm_infos: pre.editing_swap_farm_infos.update(
                                e as int,
                                ged2,
                            ),
                            ..pre
                        }));
                        assert forall|q: int| 0 <= q < self@.swap_farms.len() implies (
                        #[trigger] self@.swap_farms[q]).wf() by {
                            if q != k as int {
                                assert(self@.swap_farms[q] == pre.swap_farms[q]);
                            } else {
                                assert(self@.swap_farms[q] == gsf2);
                            }
                        }
                        assert forall|q: int|
                            0 <= q < self@.editing_swap_farm_infos.len() implies (
                        #[trigger] self@.editing_swap_farm_infos[q]).wf() by {
                            if q != e as int {
                                assert(self@.editing_swap_farm_infos[q]
                                    == pre.editing_swap_farm_infos[q]);
                            }
                        }
                    }
                } else {
                    let mut conf: Vec<u64> = Vec::new();
                    conf.push(caller);
                    let ed = EditingSwapFarmInfoData {
                        token_id: self.editing_swap_farm_infos[e].token_id,
                        swap_rate,
                        min_lock_time,
                        max_lock_time,
                        confirmed_admins: conf,
                    };
                    let ghost ged2 = ed@;
                    self.editing_swap_farm_infos.set(e, ed);
                    proof {
                        assert(ged2.confirmed_admins =~= seq![caller]);
                        assert(self@ =~= (crate::ContractView {
                            editing_swap_farm_infos: pre.editing_swap_farm_infos.update(
                                e as int,
                                ged2,
                            ),
                            ..pre
                        }));
                        assert forall|q: int|
                            0 <= q < self@.editing_swap_farm_infos.len() implies (
                        #[trigger] self@.editing_swap_farm_infos[q]).wf() by {
                            if q != e as int {
                                assert(self@.editing_swap_farm_infos[q]
                                    == pre.editing_swap_farm_infos[q]);
                            }
                        }
                    }
                }
            },
            Option::None => {
                let ed = EditingSwapFarmInfoData::new(
                    token_id,
                    swap_rate,
                    min_lock_time,
                    max_lock_time,
                );
                let ghost ged2 = ed@;
                self.editing_swap_farm_infos.push(ed);
                proof {
                    assert(self@ =~= (crate::ContractView {
                        editing_swap_farm_infos: pre.editing_swap_farm_infos.push(ged2),
                        ..pre
                    }));
                    assert forall|q: int| 0 <= q < self@.editing_swap_farm_infos.len() implies (
                    #[trigger] self@.editing_swap_farm_infos[q]).wf() by {
                        if q < pre.editing_swap_farm_infos.len() {
                            assert(self@.editing_swap_farm_infos[q]
                                == pre.editing_swap_farm_infos[q]);
                        }
                    }
                }
            },
        }
        Ok(())
    }

    /// Record the caller's confirmation of the draft for the conversion
    /// pool of `token_id`. Only an admin may call this, and the draft must
    /// exist. When every admin has confirmed, the draft is applied to the
    /// pool (which must exist) and the confirmations cleared.
    pub fn confirm_editing_swap_farm_info(&mut self, caller: u64, token_id: u64) -> (r: Result<
        (),
        StakingError,
    >)
        requires
            old(self)@.wf(),
        ensures
            final(self)@.wf(),
            match r {
                Ok(()) => old(self)@.admin_ids.contains(caller) && ({
                    let sfs = old(self)@.swap_farms;
                    let eds = old(self)@.editing_swap_farm_infos;
                    exists|e: int|
                        #![auto]
                        0 <= e < eds.len() && eds[e].token_id == token_id && ({
                            let conf = if eds[e].confirmed_admins.contains(caller) {
                                eds[e].confirmed_admins
                            } else {
                                eds[e].confirmed_admins.push(caller)
                            };
                            if old(self)@.admin_ids.len() <= conf.len() {
                                exists|k: int|
                                    #![auto]
                                    0 <= k < sfs.len() && sfs[k].token_id == token_id
                                        && final(self)@ == (crate::ContractView {
                                        swap_farms: sfs.update(
                                            k,
                                            (SwapFarmInfoView {
                                                min_lock_time: eds[e].min_lock_time,
                                                max_lock_time: eds[e].max_lock_time,
                                                swap_rate: eds[e].swap_rate,
                                                ..sfs[k]
                                            }),
                                        ),
                                        editing_swap_farm_infos: eds.update(
                                            e,
                                            (EditingSwapFarmInfoDataView {
                                                confirmed_admins: Seq::empty(),
                                                ..eds[e]
                                            }),
                                        ),
                                        ..old(self)@
                                    })
                            } else {
                                final(self)@ == (crate::ContractView {
                                    editing_swap_farm_infos: eds.update(
                                        e,
                                        (EditingSwapFarmInfoDataView {
                                            confirmed_admins: conf,
                                            ..eds[e]
                                        }),
                                    ),
                                    ..old(self)@
                                })
                            }
                        })
                }),
                Err(e) => final(self)@ == old(self)@ && ((e == StakingError::Unauthorized && !old(
                    self,
                )@.admin_ids.contains(caller)) || e == StakingError::InvalidReference),
            },
            r is Err && r->Err_0 == StakingError::InvalidReference ==> old(
                self,
            )@.admin_ids.contains(caller) && ({
                ||| forall|e: int|
                    0 <= e < old(self)@.editing_swap_farm_infos.len() ==> (#[trigger] old(
                        self,
                    )@.editing_swap_farm_infos[e]).token_id != token_id
                ||| exists|e: int|
                    #![auto]
                    0 <= e < old(self)@.editing_swap_farm_infos.len() && old(
                        self,
                    )@.editing_swap_farm_infos[e].token_id == token_id && ({
                        let conf = if old(self)@.editing_swap_farm_infos[
                            e
                        ].confirmed_admins.contains(caller) {
                            old(self)@.editing_swap_farm_infos[e].confirmed_admins
                        } else {
                            old(self)@.editing_swap_farm_infos[e].confirmed_admins.push(caller)
                        };
                        old(self)@.admin_ids.len() <= conf.len()
                    }) && (forall|k: int|
                        0 <= k < old(self)@.swap_farms.len() ==> (#[trigger] old(
                            self,
                        )@.swap_farms[k]).token_id != token_id)
            }),
    {
        if !self.is_admin(caller) {
            return Err(StakingError::Unauthorized);
        }
        let ghost pre = self@;
        let e = match self.find_editing_swap_farm(token_id) {
            Option::Some(e) => e,
            Option::None => { return Err(StakingError::InvalidReference) },
        };
        proof {
            lemma_editing_swap_key_index(pre.editing_swap_farm_infos, token_id, e as int);
            assert(pre.editing_swap_farm_infos[e as int].wf());
        }
        let ed_ref = &self.editing_swap_farm_infos[e];
        let mut conf = crate::stake_info::copy_vec_u64(&ed_ref.confirmed_admins);
        match crate::find_u64(&conf, caller) {
            Option::Some(_) => {
                proof {
                    assert(pre.editing_swap_farm_infos[e as int].confirmed_admins.contains(
                        caller,
                    ));
                }
            },
            Option::None => {
                proof {
                    assert(!pre.editing_swap_farm_infos[e as int].confirmed_admins.contains(
                        caller,
                    ));
                }
                conf.push(caller);
            },
        }
        let ghost gconf = conf@;
        if self.admin_ids.len() <= conf.len() {
            let k = match self.find_swap_farm(token_id) {
                Option::Some(k) => k,
                Option::None => { return Err(StakingError::InvalidReference) },
            };
            proof {
                lemma_swap_farm_key_index(pre.swap_farms, token_id, k as int);
            }
            let mut sf = copy_swap_farm_info(&self.swap_farms[k]);
            sf.min_lock_time = self.editing_swap_farm_infos[e].min_lock_time;
            sf.max_lock_time = self.editing_swap_farm_infos[e].max_lock_time;
            sf.swap_rate = self.editing_swap_farm_infos[e].swap_rate;
            let ghost gsf2 = sf@;
            self.swap_farms.set(k, sf);
            let ed = EditingSwapFarmInfoData {
                token_id: self.editing_swap_farm_infos[e].token_id,
                swap_rate: self.editing_swap_farm_infos[e].swap_rate,
                min_lock_time: self.editing_swap_farm_infos[e].min_lock_time,
                max_lock_time: self.editing_swap_farm_infos[e].max_lock_time,
                confirmed_admins: Vec::new(),
            };
            let ghost ged2 = ed@;
            self.editing_swap_farm_infos.set(e, ed);
            proof {
                assert(ged2 =~= (EditingSwapFarmInfoDataView {
                    confirmed_admins: Seq::empty(),
                    ..pre.editing_swap_farm_infos[e as int]
                }));
                assert(self@ =~= (crate::ContractView {
                    swap_farms: pre.swap_farms.update(k as int, gsf2),
                    editing_swap_farm_infos: pre.editing_swap_farm_infos.update(e as int, ged2),
                    ..pre
                }));
                assert forall|q: int| 0 <= q < self@.swap_farms.len() implies (
                #[trigger] self@.swap_farms[q]).wf() by {
                    if q != k as int {
                        assert(self@.swap_farms[q] == pre.swap_farms[q]);
                    } else {
                        assert(self@.swap_farms[q] == gsf2);
                    }
                }
                assert forall|q: int| 0 <= q < self@.editing_swap_farm_infos.len() implies (
                #[trigger] self@.editing_swap_farm_infos[q]).wf() by {
                    if q != e as int {
                        assert(self@.editing_swap_farm_infos[q] == pre.editing_swap_farm_infos[
                            q
                        ]);
                    }
                }
            }
        } else {
            let ed = EditingSwapFarmInfoData {
                token_id: self.editing_swap_farm_infos[e].token_id,
                swap_rate: self.editing_swap_farm_infos[e].swap_rate,
                min_lock_time: self.editing_swap_farm_infos[e].min_lock_time,
                max_lock_time: self.editing_swap_farm_infos[e].max_lock_time,
                confirmed_admins: conf,
            };
            let ghost ged2 = ed@;
            self.editing_swap_farm_infos.set(e, ed);
            proof {
                assert(ged2 =~= (EditingSwapFarmInfoDataView {
                    confirmed_admins: gconf,
                    ..pre.editing_swap_farm_infos[e as int]
                }));
                assert(self@ =~= (crate::ContractView {
                    editing_swap_farm_infos: pre.editing_swap_farm_infos.update(e as int, ged2),
                    ..pre
                }));
                assert forall|q: int| 0 <= q < self@.editing_swap_farm_infos.len() implies (
                #[trigger] self@.editing_swap_farm_infos[q]).wf() by {
                    if q != e as int {
                        assert(self@.editing_swap_farm_infos[q] == pre.editing_swap_farm_infos[
                            q
                        ]);
                    }
                }
            }
        }
        Ok(())
    }
}

} // verus!
