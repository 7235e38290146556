//! A multi-pool staking and farming ledger.
//!
//! Users lock one of several asset classes (a fungible token, an LP share,
//! or previously earned reward) for a chosen duration and accrue reward
//! proportional to a time-and-amount weighted share of a pool's emission
//! rate. The ledger keeps, per farm, aggregate totals and per-account stake
//! positions with an append-only lock schedule, and settles reward up to an
//! injected timestamp in whole-second ticks. A parallel conversion module
//! swaps a foreign token into the reward asset at a fixed rate and vests it
//! linearly.
//!
//! The host process owns one [`Contract`] value and passes every external
//! event into it as plain values: the caller's account, amounts, and the
//! current time in milliseconds. Asset transfers out of custody are returned
//! to the host as values to perform; identity, authorization proofs and
//! storage are the host's business. Every operation either completes in
//! full or returns a [`errors::StakingError`] and leaves the ledger exactly
//! as it was.
#![verifier::loop_isolation(false)]
use vstd::prelude::*;

pub mod deposit;
pub mod errors;
pub mod farm_info;
pub mod internal;
pub mod laws;
pub mod lock_schedule;
pub mod math;
pub mod stake_info;
pub mod swap;
pub mod view;

use crate::errors::StakingError;
use crate::farm_info::EditingFarmInfo;
use crate::farm_info::FarmInfo;
use crate::farm_info::FarmInfoView;
use crate::swap::EditingSwapFarmInfoData;
use crate::swap::EditingSwapFarmInfoDataView;
use crate::swap::SwapFarmInfo;
use crate::swap::SwapFarmInfoView;
use crate::farm_info::farm_from_draft;

verus! {

/// The numeric id of the base token: the asset rewards are paid in and
/// conversions produce. The blank farm draft also points at it.
pub const DEFAULT_TOKEN_ID: u64 = 0;

/// Smallest accepted storage deposit.
pub const STORAGE_PER_SALE: u128 = 1000 * 10_000_000_000_000_000_000;

/// One account's storage balance.
#[derive(Clone, Copy, PartialEq, Eq, Structural)]
pub struct StorageDeposit {
    pub account_id: u64,
    pub balance: u128,
}

/// Aggregate amount of one token staked across all farms.
#[derive(Clone, Copy, PartialEq, Eq, Structural)]
pub struct TokenStaked {
    pub token_id: u64,
    pub amount: u128,
}

/// Aggregate amount of one pool's LP shares staked across all farms.
#[derive(Clone, Copy, PartialEq, Eq, Structural)]
pub struct PoolStaked {
    pub pool_id: u64,
    pub amount: u128,
}

/// Spec-level image of the whole ledger.
#[verifier::ext_equal]
pub ghost struct ContractView {
    pub owner_id: u64,
    pub farm_infos: Seq<FarmInfoView>,
    pub storage_deposits: Seq<StorageDeposit>,
    pub admin_ids: Seq<u64>,
    pub editing_new_farm: EditingFarmInfo,
    pub confirmed_admins_for_new_farm: Seq<u64>,
    pub swap_farms: Seq<SwapFarmInfoView>,
    pub editing_swap_farm_infos: Seq<EditingSwapFarmInfoDataView>,
    pub token_stake_info: Seq<TokenStaked>,
    pub lp_stake_info: Seq<PoolStaked>,
}

/// The whole ledger: farms, conversion pools, admin sets, storage balances
/// and aggregate staking counters, owned by the host process.
pub struct Contract {
    pub owner_id: u64,
    pub farm_infos: Vec<FarmInfo>,
    pub storage_deposits: Vec<StorageDeposit>,
    pub admin_ids: Vec<u64>,
    pub editing_new_farm: EditingFarmInfo,
    pub confirmed_admins_for_new_farm: Vec<u64>,
    pub swap_farms: Vec<SwapFarmInfo>,
    pub editing_swap_farm_infos: Vec<EditingSwapFarmInfoData>,
    pub token_stake_info: Vec<TokenStaked>,
    pub lp_stake_info: Vec<PoolStaked>,
}

impl View for Contract {
    type V = ContractView;

    open spec fn view(&self) -> ContractView {
        ContractView {
            owner_id: self.owner_id,
            farm_infos: Seq::new(self.farm_infos@.len(), |i: int| self.farm_infos@[i]@),
            storage_deposits: self.storage_deposits@,
            admin_ids: self.admin_ids@,
            editing_new_farm: self.editing_new_farm,
            confirmed_admins_for_new_farm: self.confirmed_admins_for_new_farm@,
            swap_farms: Seq::new(self.swap_farms@.len(), |i: int| self.swap_farms@[i]@),
            editing_swap_farm_infos: Seq::new(
                self.editing_swap_farm_infos@.len(),
                |i: int| self.editing_swap_farm_infos@[i]@,
            ),
            token_stake_info: self.token_stake_info@,
            lp_stake_info: self.lp_stake_info@,
        }
    }
}

/// No element of a `u64` sequence repeats.
pub open spec fn unique_u64s(s: Seq<u64>) -> bool {
    forall|i: int, j: int| 0 <= i < j < s.len() ==> s[i] != s[j]
}

impl ContractView {
    /// Structural soundness of the ledger: every farm and conversion pool
    /// is well-formed, and every keyed collection holds each key at most
    /// once.
    pub open spec fn wf(self) -> bool {
        &&& forall|i: int|
            0 <= i < self.farm_infos.len() ==> (#[trigger] self.farm_infos[i]).wf()
        &&& forall|i: int, j: int|
            0 <= i < j < self.storage_deposits.len() ==> self.storage_deposits[i].account_id
                != self.storage_deposits[j].account_id
        &&& unique_u64s(self.admin_ids)
        &&& unique_u64s(self.confirmed_admins_for_new_farm)
        &&& forall|i: int|
            0 <= i < self.swap_farms.len() ==> (#[trigger] self.swap_farms[i]).wf()
        &&& forall|i: int, j: int|
            0 <= i < j < self.swap_farms.len() ==> self.swap_farms[i].token_id
                != self.swap_farms[j].token_id
        &&& forall|i: int|
            0 <= i < self.editing_swap_farm_infos.len() ==> (#[trigger] self.editing_swap_farm_infos[
                i
            ]).wf()
        &&& forall|i: int, j: int|
            0 <= i < j < self.editing_swap_farm_infos.len() ==> self.editing_swap_farm_infos[
                i
            ].token_id != self.editing_swap_farm_infos[j].token_id
        &&& forall|i: int, j: int|
            0 <= i < j < self.token_stake_info.len() ==> self.token_stake_info[i].token_id
                != self.token_stake_info[j].token_id
        &&& forall|i: int, j: int|
            0 <= i < j < self.lp_stake_info.len() ==> self.lp_stake_info[i].pool_id
                != self.lp_stake_info[j].pool_id
    }
}

/// The editing draft's value while no edit is in flight.
pub open spec fn blank_editing_farm() -> EditingFarmInfo {
    EditingFarmInfo {
        farm_id: 0,
        farm_type: 0,
        token_id: DEFAULT_TOKEN_ID,
        token_decimal: 0,
        pool_id: 0,
        token_reward_rate: 0,
        pool_reward_rate: 0,
        reward_reward_rate: 0,
        token_weight_rate: 0,
        pool_weight_rate: 0,
        max_token_vesting_duration: 0,
        max_reward_vesting_duration: 0,
        starting_at: 0,
        ending_at: 0,
    }
}

/// Executable form of `blank_editing_farm`.
pub fn make_blank_editing_farm() -> (r: EditingFarmInfo)
    ensures
        r == blank_editing_farm(),
{
    EditingFarmInfo {
        farm_id: 0,
        farm_type: 0,
        token_id: DEFAULT_TOKEN_ID,
        token_decimal: 0,
        pool_id: 0,
        token_reward_rate: 0,
        pool_reward_rate: 0,
        reward_reward_rate: 0,
        token_weight_rate: 0,
        pool_weight_rate: 0,
        max_token_vesting_duration: 0,
        max_reward_vesting_duration: 0,
        starting_at: 0,
        ending_at: 0,
    }
}

/// The index of `x` in `v`, if present.
pub fn find_u64(v: &Vec<u64>, x: u64) -> (r: Option<usize>)
    ensures
        match r {
            Option::Some(i) => i < v@.len() && v@[i as int] == x,
            Option::None => forall|i: int| 0 <= i < v@.len() ==> v@[i] != x,
        },
{
    let mut i: usize = 0;
    while i < v.len()
        invariant
            i <= v.len(),
            forall|j: int| 0 <= j < i ==> v@[j] != x,
        decreases v.len() - i,
    {
        if v[i] == x {
            return Option::Some(i);
        }
        i = i + 1;
    }
    Option::None
}

impl Contract {
    /// A fresh ledger owned by `owner_id`: no farms, no pools, no admins,
    /// no balances, a blank editing draft.
    pub fn new(owner_id: u64) -> (r: Contract)
        ensures
            r@ == (ContractView {
                owner_id,
                farm_infos: Seq::empty(),
                storage_deposits: Seq::empty(),
                admin_ids: Seq::empty(),
                editing_new_farm: blank_editing_farm(),
                confirmed_admins_for_new_farm: Seq::empty(),
                swap_farms: Seq::empty(),
                editing_swap_farm_infos: Seq::empty(),
                token_stake_info: Seq::empty(),
                lp_stake_info: Seq::empty(),
            }),
            r@.wf(),
    {
        let r = Contract {
            owner_id,
            farm_infos: Vec::new(),
            storage_deposits: Vec::new(),
            admin_ids: Vec::new(),
            editing_new_farm: make_blank_editing_farm(),
            confirmed_admins_for_new_farm: Vec::new(),
            swap_farms: Vec::new(),
            editing_swap_farm_infos: Vec::new(),
            token_stake_info: Vec::new(),
            lp_stake_info: Vec::new(),
        };
        proof {
            assert(r@ =~= (ContractView {
                owner_id,
                farm_infos: Seq::empty(),
                storage_deposits: Seq::empty(),
                admin_ids: Seq::empty(),
                editing_new_farm: blank_editing_farm(),
                confirmed_admins_for_new_farm: Seq::empty(),
                swap_farms: Seq::empty(),
                editing_swap_farm_infos: Seq::empty(),
                token_stake_info: Seq::empty(),
                lp_stake_info: Seq::empty(),
            }));
            assert(r@.farm_infos =~= Seq::<FarmInfoView>::empty());
        }
        r
    }

    /// The index of the conversion pool keyed by `token_id`, if any.
    pub fn find_swap_farm(&self, token_id: u64) -> (r: Option<usize>)
        ensures
            match r {
                Option::Some(i) => i < self@.swap_farms.len() && self@.swap_farms[
                    i as int
                ].token_id == token_id,
                Option::None => forall|i: int|
                    0 <= i < self@.swap_farms.len() ==> (#[trigger] self@.swap_farms[
                        i
                    ]).token_id != token_id,
            },
    {
        let mut i: usize = 0;
        while i < self.swap_farms.len()
            invariant
                i <= self.swap_farms.len(),
                forall|j: int|
                    0 <= j < i ==> (#[trigger] self@.swap_farms[j]).token_id != token_id,
            decreases self.swap_farms.len() - i,
        {
            if self.swap_farms[i].token_id == token_id {
                return Option::Some(i);
            }
            i = i + 1;
        }
        Option::None
    }

    /// The index of the conversion-pool draft keyed by `token_id`, if any.
    pub fn find_editing_swap_farm(&self, token_id: u64) -> (r: Option<usize>)
        ensures
            match r {
                Option::Some(i) => i < self@.editing_swap_farm_infos.len()
                    && self@.editing_swap_farm_infos[i as int].token_id == token_id,
                Option::None => forall|i: int|
                    0 <= i < self@.editing_swap_farm_infos.len() ==> (
                    #[trigger] self@.editing_swap_farm_infos[i]).token_id != token_id,
            },
    {
        let mut i: usize = 0;
        while i < self.editing_swap_farm_infos.len()
            invariant
                i <= self.editing_swap_farm_infos.len(),
                forall|j: int|
                    0 <= j < i ==> (#[trigger] self@.editing_swap_farm_infos[j]).token_id
                        != token_id,
            decreases self.editing_swap_farm_infos.len() - i,
        {
            if self.editing_swap_farm_infos[i].token_id == token_id {
                return Option::Some(i);
            }
            i = i + 1;
        }
        Option::None
    }

    /// The index of the aggregate staking counter of `token_id`, if any.
    pub fn find_token_staked(&self, token_id: u64) -> (r: Option<usize>)
        ensures
            match r {
                Option::Some(i) => i < self@.token_stake_info.len() && self@.token_stake_info[
                    i as int
                ].token_id == token_id,
                Option::None => forall|i: int|
                    0 <= i < self@.token_stake_info.len() ==> (#[trigger] self@.token_stake_info[
                        i
                    ]).token_id != token_id,
            },
    {
        let mut i: usize = 0;
        while i < self.token_stake_info.len()
            invariant
                i <= self.token_stake_info.len(),
                forall|j: int|
                    0 <= j < i ==> (#[trigger] self@.token_stake_info[j]).token_id != token_id,
            decreases self.token_stake_info.len() - i,
        {
            if self.token_stake_info[i].token_id == token_id {
                return Option::Some(i);
            }
            i = i + 1;
        }
        Option::None
    }

    /// The index of the aggregate staking counter of pool `pool_id`, if
    /// any.
    pub fn find_pool_staked(&self, pool_id: u64) -> (r: Option<usize>)
        ensures
            match r {
                Option::Some(i) => i < self@.lp_stake_info.len() && self@.lp_stake_info[
                    i as int
                ].pool_id == pool_id,
                Option::None => forall|i: int|
                    0 <= i < self@.lp_stake_info.len() ==> (#[trigger] self@.lp_stake_info[
                        i
                    ]).pool_id != pool_id,
            },
    {
        let mut i: usize = 0;
        while i < self.lp_stake_info.len()
            invariant
                i <= self.lp_stake_info.len(),
                forall|j: int|
                    0 <= j < i ==> (#[trigger] self@.lp_stake_info[j]).pool_id != pool_id,
            decreases self.lp_stake_info.len() - i,
        {
            if self.lp_stake_info[i].pool_id == pool_id {
                return Option::Some(i);
            }
            i = i + 1;
        }
        Option::None
    }

    /// Whether `account_id` is on the admin list.
    pub fn is_admin(&self, account_id: u64) -> (r: bool)
        ensures
            r == self@.admin_ids.contains(account_id),
    {
        match find_u64(&self.admin_ids, account_id) {
            Option::Some(_) => true,
            Option::None => {
                proof {
                    assert(!self@.admin_ids.contains(account_id));
                }
                false
            },
        }
    }

    /// Grant `account_id` the admin role. Only the owner may call this; the
    /// list is unchanged when the account already holds the role.
    pub fn add_admin(&mut self, caller: u64, account_id: u64) -> (r: Result<(), StakingError>)
        ensures
            match r {
                Ok(()) => old(self)@.owner_id == caller && final(self)@ == (ContractView {
                    admin_ids: if old(self)@.admin_ids.contains(account_id) {
                        old(self)@.admin_ids
                    } else {
                        old(self)@.admin_ids.push(account_id)
                    },
                    ..old(self)@
                }),
                Err(e) => final(self)@ == old(self)@ && e == StakingError::Unauthorized && old(
                    self,
                )@.owner_id != caller,
            },
            old(self)@.wf() ==> final(self)@.wf(),
    {
        if caller != self.owner_id {
            return Err(StakingError::Unauthorized);
        }
        match find_u64(&self.admin_ids, account_id) {
            Option::Some(_) => {
                proof {
                    assert(self@.admin_ids.contains(account_id));
                    assert(self@ =~= (ContractView { admin_ids: self@.admin_ids, ..self@ }));
                }
                Ok(())
            },
            Option::None => {
                proof {
                    assert(!self@.admin_ids.contains(account_id));
                }
                let ghost pre = self@;
                self.admin_ids.push(account_id);
                proof {
                    assert(self@ =~= (ContractView {
                        admin_ids: pre.admin_ids.push(account_id),
                        ..pre
                    }));
                }
                Ok(())
            },
        }
    }

    /// The admin list.
    pub fn get_adminlist(&self) -> (r: Vec<u64>)
        ensures
            r@ == self@.admin_ids,
    {
        crate::stake_info::copy_vec_u64(&self.admin_ids)
    }

    /// The accounts that have confirmed the pending farm draft.
    pub fn get_confirmed_admins_for_new_farm(&self) -> (r: Vec<u64>)
        ensures
            r@ == self@.confirmed_admins_for_new_farm,
    {
        crate::stake_info::copy_vec_u64(&self.confirmed_admins_for_new_farm)
    }

    /// Credit a storage deposit of `deposit` to `account_id` (or create the
    /// balance). Deposits under `STORAGE_PER_SALE` are rejected.
    pub fn storage_deposit(&mut self, account_id: u64, deposit: u128) -> (r: Result<
        (),
        StakingError,
    >)
        requires
            old(self)@.wf(),
        ensures
            match r {
                Ok(()) => deposit >= STORAGE_PER_SALE && ({
                    let ds = old(self)@.storage_deposits;
                    ||| (forall|i: int| 0 <= i < ds.len() ==> ds[i].account_id != account_id)
                        && final(self)@ == (ContractView {
                        storage_deposits: ds.push(
                            StorageDeposit { account_id, balance: deposit },
                        ),
                        ..old(self)@
                    })
                    ||| (exists|i: int|
                        #![auto]
                        0 <= i < ds.len() && ds[i].account_id == account_id && ds[i].balance
                            + deposit <= u128::MAX && final(self)@ == (ContractView {
                            storage_deposits: ds.update(
                                i,
                                StorageDeposit {
                                    account_id,
                                    balance: (ds[i].balance + deposit) as u128,
                                },
                            ),
                            ..old(self)@
                        }))
                }),
                Err(e) => final(self)@ == old(self)@ && (e == StakingError::InvalidAmount
                    || e == StakingError::Arithmetic),
            },
            (r is Err && r->Err_0 == StakingError::InvalidAmount) <==> deposit
                < STORAGE_PER_SALE,
            r is Err && r->Err_0 == StakingError::Arithmetic ==> (exists|i: int|
                #![auto]
                0 <= i < old(self)@.storage_deposits.len() && old(self)@.storage_deposits[
                    i
                ].account_id == account_id && old(self)@.storage_deposits[i].balance + deposit
                    > u128::MAX),
            final(self)@.wf(),
    {
        if deposit < STORAGE_PER_SALE {
            return Err(StakingError::InvalidAmount);
        }
        let mut i: usize = 0;
        while i < self.storage_deposits.len()
            invariant
                old(self)@.wf(),
                *self == *old(self),
                i <= self.storage_deposits.len(),
                forall|j: int|
                    0 <= j < i ==> self.storage_deposits@[j].account_id != account_id,
            decreases self.storage_deposits.len() - i,
        {
            if self.storage_deposits[i].account_id == account_id {
                let bal = match self.storage_deposits[i].balance.checked_add(deposit) {
                    Option::Some(v) => v,
                    Option::None => { return Err(StakingError::Arithmetic) },
                };
                let ghost pre = self@;
                self.storage_deposits.set(i, StorageDeposit { account_id, balance: bal });
                proof {
                    assert(self@ =~= (ContractView {
                        storage_deposits: pre.storage_deposits.update(
                            i as int,
                            StorageDeposit {
                                account_id,
                                balance: (pre.storage_deposits[i as int].balance + deposit) as u128,
                            },
                        ),
                        ..pre
                    }));
                    let ds = old(self)@.storage_deposits;
                    assert(0 <= (i as int) < ds.len() && ds[i as int].account_id == account_id
                        && ds[i as int].balance + deposit <= u128::MAX && self@ == (ContractView {
                        storage_deposits: ds.update(
                            i as int,
                            StorageDeposit {
                                account_id,
                                balance: (ds[i as int].balance + deposit) as u128,
                            },
                        ),
                        ..old(self)@
                    }));
                    assert(exists|k: int|
                        0 <= k < ds.len() && ds[k].account_id == account_id && ds[k].balance
                            + deposit <= u128::MAX && self@ == (ContractView {
                            storage_deposits: ds.update(
                                k,
                                StorageDeposit {
                                    account_id,
                                    balance: (ds[k].balance + deposit) as u128,
                                },
                            ),
                            ..old(self)@
                        }));
                    let ds0 = pre.storage_deposits;
                    assert forall|a: int, b: int|
                        0 <= a < b < self@.storage_deposits.len() implies self@.storage_deposits[
                        a
                    ].account_id != self@.storage_deposits[b].account_id by {
                        assert(ds0[a].account_id != ds0[b].account_id);
                    }
                }
                return Ok(());
            }
            i = i + 1;
        }
        let ghost pre = self@;
        self.storage_deposits.push(StorageDeposit { account_id, balance: deposit });
        proof {
            assert(self@ =~= (ContractView {
                storage_deposits: pre.storage_deposits.push(
                    StorageDeposit { account_id, balance: deposit },
                ),
                ..pre
            }));
        }
        Ok(())
    }

    /// Remove and return `account_id`'s whole storage balance (zero when it
    /// has none). The host transfers the returned amount back to the
    /// account.
    pub fn storage_withdraw(&mut self, account_id: u64) -> (r: u128)
        requires
            old(self)@.wf(),
        ensures
            final(self)@.wf(),
            ({
                let ds = old(self)@.storage_deposits;
                ||| (forall|i: int| 0 <= i < ds.len() ==> ds[i].account_id != account_id) && r
                    == 0 && final(self)@ == old(self)@
                ||| (exists|i: int|
                    0 <= i < ds.len() && ds[i].account_id == account_id && r == ds[i].balance
                        && final(self)@ == (ContractView {
                        storage_deposits: ds.remove(i),
                        ..old(self)@
                    }))
            }),
    {
        let mut i: usize = 0;
        while i < self.storage_deposits.len()
            invariant
                old(self)@.wf(),
                *self == *old(self),
                i <= self.storage_deposits.len(),
                forall|j: int|
                    0 <= j < i ==> self.storage_deposits@[j].account_id != account_id,
            decreases self.storage_deposits.len() - i,
        {
            if self.storage_deposits[i].account_id == account_id {
                let ghost pre = self@;
                let entry = self.storage_deposits.remove(i);
                proof {
                    assert(self@ =~= (ContractView {
                        storage_deposits: pre.storage_deposits.remove(i as int),
                        ..pre
                    }));
                    let ds = pre.storage_deposits;
                    assert forall|a: int, b: int|
                        0 <= a < b < self@.storage_deposits.len() implies self@.storage_deposits[
                        a
                    ].account_id != self@.storage_deposits[b].account_id by {
                        let a0 = if a < i as int {
                            a
                        } else {
                            a + 1
                        };
                        let b0 = if b < i as int {
                            b
                        } else {
                            b + 1
                        };
                        assert(self@.storage_deposits[a] == ds[a0]);
                        assert(self@.storage_deposits[b] == ds[b0]);
                        assert(ds[a0].account_id != ds[b0].account_id);
                    }
                }
                return entry.balance;
            }
            i = i + 1;
        }
        0
    }

    /// The smallest accepted storage deposit and the absence of an upper
    /// bound (the second component is always `None`).
    pub fn storage_balance_bounds(&self) -> (r: (u128, Option<u128>))
        ensures
            r.0 == STORAGE_PER_SALE,
            r.1 is None,
    {
        (STORAGE_PER_SALE, Option::None)
    }

    /// The smallest accepted storage deposit.
    pub fn storage_minimum_balance(&self) -> (r: u128)
        ensures
            r == STORAGE_PER_SALE,
    {
        STORAGE_PER_SALE
    }

    /// `account_id`'s storage balance, zero when it has none.
    pub fn storage_balance_of(&self, account_id: u64) -> (r: u128)
        ensures
            ({
                let ds = self@.storage_deposits;
                ||| (forall|i: int| 0 <= i < ds.len() ==> ds[i].account_id != account_id) && r
                    == 0
                ||| (exists|i: int|
                    0 <= i < ds.len() && ds[i].account_id == account_id && r == ds[i].balance)
            }),
    {
        let mut i: usize = 0;
        while i < self.storage_deposits.len()
            invariant
                i <= self.storage_deposits.len(),
                forall|j: int|
                    0 <= j < i ==> self.storage_deposits@[j].account_id != account_id,
            decreases self.storage_deposits.len() - i,
        {
            if self.storage_deposits[i].account_id == account_id {
                return self.storage_deposits[i].balance;
            }
            i = i + 1;
        }
        0
    }

    /// `account_id`'s storage balance, zero when it has none.
    pub fn storage_paid(&self, account_id: u64) -> (r: u128)
        ensures
            ({
                let ds = self@.storage_deposits;
                ||| (forall|i: int| 0 <= i < ds.len() ==> ds[i].account_id != account_id) && r
                    == 0
                ||| (exists|i: int|
                    0 <= i < ds.len() && ds[i].account_id == account_id && r == ds[i].balance)
            }),
    {
        self.storage_balance_of(account_id)
    }

    /// The per-sale storage price.
    pub fn storage_amount(&self) -> (r: u128)
        ensures
            r == STORAGE_PER_SALE,
    {
        STORAGE_PER_SALE
    }
}


/// `s` without the value `x` (first occurrence; with unique elements, the
/// occurrence), or `s` where `x` is absent.
pub open spec fn removed_u64(s: Seq<u64>, x: u64) -> Seq<u64> {
    if s.contains(x) {
        s.remove(choose|i: int| 0 <= i < s.len() && s[i] == x)
    } else {
        s
    }
}

/// With unique elements, any index holding `x` is the chosen one.
pub proof fn lemma_u64_value_index(s: Seq<u64>, x: u64, i: int)
    requires
        0 <= i < s.len(),
        s[i] == x,
        unique_u64s(s),
    ensures
        s.contains(x),
        (choose|j: int| 0 <= j < s.len() && s[j] == x) == i,
        removed_u64(s, x) == s.remove(i),
{
    assert(s.contains(x));
    let j = choose|j: int| 0 <= j < s.len() && s[j] == x;
    if i < j {
        assert(s[i] != s[j]);
    } else if j < i {
        assert(s[j] != s[i]);
    }
}

/// Removing a value keeps the elements unique.
pub proof fn lemma_removed_u64_unique(s: Seq<u64>, x: u64)
    requires
        unique_u64s(s),
    ensures
        unique_u64s(removed_u64(s, x)),
{
    if s.contains(x) {
        let i = choose|j: int| 0 <= j < s.len() && s[j] == x;
        let s2 = s.remove(i);
        assert forall|a: int, b: int| 0 <= a < b < s2.len() implies s2[a] != s2[b] by {
            let a0 = if a < i {
                a
            } else {
                a + 1
            };
            let b0 = if b < i {
                b
            } else {
                b + 1
            };
            assert(s2[a] == s[a0]);
            assert(s2[b] == s[b0]);
        }
    }
}

/// Whether removing `account`'s confirmation from a conversion-pool draft
/// completes it: the account had confirmed, and everyone still an admin
/// (there are `n_admins` of them) has too.
pub open spec fn editing_swap_applies(
    ed: EditingSwapFarmInfoDataView,
    account: u64,
    n_admins: int,
) -> bool {
    ed.confirmed_admins.contains(account) && n_admins <= removed_u64(
        ed.confirmed_admins,
        account,
    ).len()
}

/// A conversion-pool draft after `account` loses the admin role: its
/// confirmation is withdrawn, and a draft this completes is applied (its
/// confirmations clear).
pub open spec fn admin_purged_editing(
    ed: EditingSwapFarmInfoDataView,
    account: u64,
    n_admins: int,
) -> EditingSwapFarmInfoDataView {
    if ed.confirmed_admins.contains(account) {
        if n_admins <= removed_u64(ed.confirmed_admins, account).len() {
            EditingSwapFarmInfoDataView { confirmed_admins: Seq::empty(), ..ed }
        } else {
            EditingSwapFarmInfoDataView {
                confirmed_admins: removed_u64(ed.confirmed_admins, account),
                ..ed
            }
        }
    } else {
        ed
    }
}

/// Whether some draft in `eds` for this token completes when `account`
/// loses the admin role.
pub open spec fn purge_applies_to(
    eds: Seq<EditingSwapFarmInfoDataView>,
    token_id: u64,
    account: u64,
    n_admins: int,
) -> bool {
    exists|e: int|
        0 <= e < eds.len() && (#[trigger] eds[e]).token_id == token_id && editing_swap_applies(
            eds[e],
            account,
            n_admins,
        )
}

/// A conversion pool after `account` loses the admin role: where its draft
/// completes, the draft's parameters are applied.
pub open spec fn admin_purged_swap_farm(
    sf: swap::SwapFarmInfoView,
    eds: Seq<EditingSwapFarmInfoDataView>,
    account: u64,
    n_admins: int,
) -> swap::SwapFarmInfoView {
    if purge_applies_to(eds, sf.token_id, account, n_admins) {
        let e = choose|e: int|
            0 <= e < eds.len() && (#[trigger] eds[e]).token_id == sf.token_id
                && editing_swap_applies(eds[e], account, n_admins);
        swap::SwapFarmInfoView {
            min_lock_time: eds[e].min_lock_time,
            max_lock_time: eds[e].max_lock_time,
            swap_rate: eds[e].swap_rate,
            ..sf
        }
    } else {
        sf
    }
}


impl Contract {
    /// Revoke `account_id`'s admin role. Only the owner may call this. The
    /// account's pending confirmations are withdrawn everywhere; any
    /// confirmation set this completes is applied: the farm draft becomes
    /// a farm, a completed conversion-pool draft is written into its pool
    /// (which must exist). On any error the ledger is unchanged.
    pub fn remove_admin(&mut self, caller: u64, account_id: u64) -> (r: Result<(), StakingError>)
        requires
            old(self)@.wf(),
        ensures
            final(self)@.wf(),
            match r {
                Ok(()) => caller == old(self)@.owner_id && ({
                    let admins2 = removed_u64(old(self)@.admin_ids, account_id);
                    let n = admins2.len() as int;
                    let eds = old(self)@.editing_swap_farm_infos;
                    let sfs = old(self)@.swap_farms;
                    let eds2 = Seq::new(
                        eds.len(),
                        |e: int| admin_purged_editing(eds[e], account_id, n),
                    );
                    let sfs2 = Seq::new(
                        sfs.len(),
                        |k: int| admin_purged_swap_farm(sfs[k], eds, account_id, n),
                    );
                    if old(self)@.confirmed_admins_for_new_farm.contains(account_id) {
                        let conf = removed_u64(
                            old(self)@.confirmed_admins_for_new_farm,
                            account_id,
                        );
                        if conf.len() == admins2.len() {
                            final(self)@ == (ContractView {
                                admin_ids: admins2,
                                farm_infos: old(self)@.farm_infos.push(
                                    farm_from_draft(
                                        #[verifier::truncate] (old(
                                            self,
                                        )@.farm_infos.len() as u16),
                                        old(self)@.editing_new_farm,
                                    ),
                                ),
                                editing_new_farm: blank_editing_farm(),
                                confirmed_admins_for_new_farm: Seq::empty(),
                                editing_swap_farm_infos: eds2,
                                swap_farms: sfs2,
                                ..old(self)@
                            })
                        } else {
                            final(self)@ == (ContractView {
                                admin_ids: admins2,
                                confirmed_admins_for_new_farm: conf,
                                editing_swap_farm_infos: eds2,
                                swap_farms: sfs2,
                                ..old(self)@
                            })
                        }
                    } else {
                        final(self)@ == (ContractView {
                            admin_ids: admins2,
                            editing_swap_farm_infos: eds2,
                            swap_farms: sfs2,
                            ..old(self)@
                        })
                    }
                }),
                Err(e) => final(self)@ == old(self)@ && ((e == StakingError::Unauthorized
                    && caller != old(self)@.owner_id) || e == StakingError::InvalidReference),
            },
            r is Err && r->Err_0 == StakingError::InvalidReference ==> (exists|e: int|
                #![auto]
                0 <= e < old(self)@.editing_swap_farm_infos.len() && editing_swap_applies(
                    old(self)@.editing_swap_farm_infos[e],
                    account_id,
                    removed_u64(old(self)@.admin_ids, account_id).len() as int,
                ) && (forall|k: int|
                    0 <= k < old(self)@.swap_farms.len() ==> (#[trigger] old(self)@.swap_farms[
                        k
                    ]).token_id != old(self)@.editing_swap_farm_infos[e].token_id)),
    {
        if caller != self.owner_id {
            return Err(StakingError::Unauthorized);
        }
        let ghost pre = self@;
        // how many admins will remain
        let n_admins: usize = match find_u64(&self.admin_ids, account_id) {
            Option::Some(ai) => {
                proof {
                    lemma_u64_value_index(pre.admin_ids, account_id, ai as int);
                }
                self.admin_ids.len() - 1
            },
            Option::None => {
                proof {
                    assert(!pre.admin_ids.contains(account_id));
                }
                self.admin_ids.len()
            },
        };
        proof {
            assert(n_admins == removed_u64(pre.admin_ids, account_id).len());
        }
        // every conversion-pool draft this completes must have its pool
        let mut i: usize = 0;
        while i < self.editing_swap_farm_infos.len()
            invariant
                *self == *old(self),
                i <= self.editing_swap_farm_infos.len(),
                forall|j: int|
                    0 <= j < i && editing_swap_applies(
                        #[trigger] pre.editing_swap_farm_infos[j],
                        account_id,
                        n_admins as int,
                    ) ==> purge_applies_to(
                        pre.editing_swap_farm_infos,
                        pre.editing_swap_farm_infos[j].token_id,
                        account_id,
                        n_admins as int,
                    ) && (exists|k: int|
                        0 <= k < pre.swap_farms.len() && (#[trigger] pre.swap_farms[k]).token_id
                            == pre.editing_swap_farm_infos[j].token_id),
            decreases self.editing_swap_farm_infos.len() - i,
        {
            let ed_ref = &self.editing_swap_farm_infos[i];
            proof {
                assert(pre.editing_swap_farm_infos[i as int].wf());
            }
            match find_u64(&ed_ref.confirmed_admins, account_id) {
                Option::Some(ci) => {
                    proof {
                        lemma_u64_value_index(
                            pre.editing_swap_farm_infos[i as int].confirmed_admins,
                            account_id,
                            ci as int,
                        );
                    }
                    if n_admins <= ed_ref.confirmed_admins.len() - 1 {
                        proof {
                            assert(editing_swap_applies(
                                pre.editing_swap_farm_infos[i as int],
                                account_id,
                                n_admins as int,
                            ));
                        }
                        match self.find_swap_farm(ed_ref.token_id) {
                            Option::Some(_) => {},
                            Option::None => { return Err(StakingError::InvalidReference) },
                        }
                    } else {
                        proof {
                            assert(!editing_swap_applies(
                                pre.editing_swap_farm_infos[i as int],
                                account_id,
                                n_admins as int,
                            ));
                        }
                    }
                },
                Option::None => {
                    proof {
                        assert(!pre.editing_swap_farm_infos[i as int].confirmed_admins.contains(
                            account_id,
                        ));
                    }
                },
            }
            i = i + 1;
        }
        // withdraw the admin role
        match find_u64(&self.admin_ids, account_id) {
            Option::Some(ai) => {
                proof {
                    lemma_u64_value_index(pre.admin_ids, account_id, ai as int);
                    lemma_removed_u64_unique(pre.admin_ids, account_id);
                }
                self.admin_ids.remove(ai);
            },
            Option::None => {},
        }
        proof {
            assert(self@.admin_ids =~= removed_u64(pre.admin_ids, account_id));
            assert(unique_u64s(self@.admin_ids)) by {
                lemma_removed_u64_unique(pre.admin_ids, account_id);
            }
        }
        // withdraw the farm-draft confirmation, applying the draft where
        // this completes it
        match find_u64(&self.confirmed_admins_for_new_farm, account_id) {
            Option::Some(ci) => {
                proof {
                    lemma_u64_value_index(
                        pre.confirmed_admins_for_new_farm,
                        account_id,
                        ci as int,
                    );
                    lemma_removed_u64_unique(pre.confirmed_admins_for_new_farm, account_id);
                }
                self.confirmed_admins_for_new_farm.remove(ci);
                proof {
                    assert(self@.confirmed_admins_for_new_farm =~= removed_u64(
                        pre.confirmed_admins_for_new_farm,
                        account_id,
                    ));
                }
                if self.confirmed_admins_for_new_farm.len() == self.admin_ids.len() {
                    let next_id: u16 = #[verifier::truncate] (self.farm_infos.len() as u16);
                    let farm = FarmInfo::new(
                        next_id,
                        self.editing_new_farm.farm_type,
                        self.editing_new_farm.token_id,
                        self.editing_new_farm.token_decimal,
                        self.editing_new_farm.pool_id,
                        self.editing_new_farm.token_reward_rate,
                        self.editing_new_farm.pool_reward_rate,
                        self.editing_new_farm.reward_reward_rate,
                        self.editing_new_farm.token_weight_rate,
                        self.editing_new_farm.pool_weight_rate,
                        self.editing_new_farm.max_token_vesting_duration,
                        self.editing_new_farm.max_reward_vesting_duration,
                        self.editing_new_farm.starting_at,
                        self.editing_new_farm.ending_at,
                    );
                    let ghost gfarm = farm@;
                    self.farm_infos.push(farm);
                    self.confirmed_admins_for_new_farm = Vec::new();
                    self.editing_new_farm = make_blank_editing_farm();
                    proof {
                        assert(self@.farm_infos =~= pre.farm_infos.push(gfarm));
                        assert forall|q: int| 0 <= q < self@.farm_infos.len() implies (
                        #[trigger] self@.farm_infos[q]).wf() by {
                            if q < pre.farm_infos.len() {
                                assert(self@.farm_infos[q] == pre.farm_infos[q]);
                            } else {
                                assert(self@.farm_infos[q] == gfarm);
                            }
                        }
                    }
                }
            },
            Option::None => {
                proof {
                    assert(!pre.confirmed_admins_for_new_farm.contains(account_id));
                }
            },
        }
        let ghost mid = self@;
        let ghost g_eds = pre.editing_swap_farm_infos;
        let ghost g_sfs = pre.swap_farms;
        let ghost gn = n_admins as int;
        // withdraw the account's conversion-pool confirmations, applying
        // the drafts this completes
        let mut i2: usize = 0;
        while i2 < self.editing_swap_farm_infos.len()
            invariant
                self@ == (ContractView {
                    editing_swap_farm_infos: self@.editing_swap_farm_infos,
                    swap_farms: self@.swap_farms,
                    ..mid
                }),
                mid.editing_swap_farm_infos == g_eds,
                mid.swap_farms == g_sfs,
                n_admins == self.admin_ids.len(),
                i2 <= g_eds.len(),
                self@.editing_swap_farm_infos.len() == g_eds.len(),
                self@.swap_farms.len() == g_sfs.len(),
                forall|j: int|
                    i2 <= j < g_eds.len() ==> self@.editing_swap_farm_infos[j] == g_eds[j],
                forall|j: int|
                    0 <= j < i2 ==> self@.editing_swap_farm_infos[j] == admin_purged_editing(
                        g_eds[j],
                        account_id,
                        gn,
                    ),
                forall|k: int|
                    0 <= k < g_sfs.len() ==> (#[trigger] self@.swap_farms[k]).token_id == g_sfs[
                        k
                    ].token_id && self@.swap_farms[k].stake_infos == g_sfs[k].stake_infos
                        && self@.swap_farms[k].total_token_amount == g_sfs[k].total_token_amount
                        && self@.swap_farms[k].token_decimal == g_sfs[k].token_decimal,
                forall|k: int|
                    0 <= k < g_sfs.len() && (forall|e: int|
                        0 <= e < i2 ==> !((#[trigger] g_eds[e]).token_id == g_sfs[k].token_id
                            && editing_swap_applies(g_eds[e], account_id, gn))) ==> (
                    #[trigger] self@.swap_farms[k]) == g_sfs[k],
                forall|e: int, k: int|
                    0 <= e < i2 && 0 <= k < g_sfs.len() && (#[trigger] g_eds[e]).token_id == (
                    #[trigger] g_sfs[k]).token_id && editing_swap_applies(
                        g_eds[e],
                        account_id,
                        gn,
                    ) ==> self@.swap_farms[k] == (SwapFarmInfoView {
                        min_lock_time: g_eds[e].min_lock_time,
                        max_lock_time: g_eds[e].max_lock_time,
                        swap_rate: g_eds[e].swap_rate,
                        ..g_sfs[k]
                    }),
                forall|j: int|
                    0 <= j < i2 && editing_swap_applies(
                        #[trigger] g_eds[j],
                        account_id,
                        gn,
                    ) ==> (exists|k: int|
                        0 <= k < g_sfs.len() && (#[trigger] g_sfs[k]).token_id == g_eds[
                            j
                        ].token_id),
            decreases g_eds.len() - i2,
        {
            let ghost pre_iter = self@;
            let ed_ref = &self.editing_swap_farm_infos[i2];
            let token_id = ed_ref.token_id;
            let min_lock_time = ed_ref.min_lock_time;
            let max_lock_time = ed_ref.max_lock_time;
            let swap_rate = ed_ref.swap_rate;
            proof {
                assert(pre_iter.editing_swap_farm_infos[i2 as int] == g_eds[i2 as int]);
                assert(g_eds[i2 as int].wf());
            }
            match find_u64(&ed_ref.confirmed_admins, account_id) {
                Option::Some(ci) => {
                    proof {
                        lemma_u64_value_index(
                            g_eds[i2 as int].confirmed_admins,
                            account_id,
                            ci as int,
                        );
                        lemma_removed_u64_unique(g_eds[i2 as int].confirmed_admins, account_id);
                    }
                    let mut conf = crate::stake_info::copy_vec_u64(&ed_ref.confirmed_admins);
                    conf.remove(ci);
                    proof {
                        assert(conf@ =~= removed_u64(g_eds[i2 as int].confirmed_admins, account_id));
                    }
                    if n_admins <= conf.len() {
                        proof {
                            assert(editing_swap_applies(g_eds[i2 as int], account_id, gn));
                        }
                        let k = match self.find_swap_farm(token_id) {
                            Option::Some(k) => k,
                            Option::None => {
                                proof {
                                    assert(exists|k: int|
                                        0 <= k < g_sfs.len() && (#[trigger] g_sfs[k]).token_id
                                            == g_eds[i2 as int].token_id);
                                    let kk = choose|k: int|
                                        0 <= k < g_sfs.len() && (#[trigger] g_sfs[k]).token_id
                                            == g_eds[i2 as int].token_id;
                                    assert(self@.swap_farms[kk].token_id == token_id);
                                    assert(false);
                                }
                                return Err(StakingError::InvalidReference);
                            },
                        };
                        let mut sf = crate::swap::copy_swap_farm_info(&self.swap_farms[k]);
                        sf.min_lock_time = min_lock_time;
                        sf.max_lock_time = max_lock_time;
                        sf.swap_rate = swap_rate;
                        let ghost gsf2 = sf@;
                        self.swap_farms.set(k, sf);
                        let ed = EditingSwapFarmInfoData {
                            token_id,
                            swap_rate,
                            min_lock_time,
                            max_lock_time,
                            confirmed_admins: Vec::new(),
                        };
                        let ghost ged2 = ed@;
                        self.editing_swap_farm_infos.set(i2, ed);
                        proof {
                            assert(ged2 =~= admin_purged_editing(
                                g_eds[i2 as int],
                                account_id,
                                gn,
                            ));
                            assert(self@.editing_swap_farm_infos =~= pre_iter.editing_swap_farm_infos.update(
                                i2 as int,
                                ged2,
                            ));
                            assert(self@.swap_farms =~= pre_iter.swap_farms.update(
                                k as int,
                                gsf2,
                            ));
                            assert(pre_iter.swap_farms[k as int] == g_sfs[k as int]) by {
                                assert forall|e: int|
                                    0 <= e < i2 implies !((#[trigger] g_eds[e]).token_id == g_sfs[
                                    k as int
                                ].token_id && editing_swap_applies(
                                    g_eds[e],
                                    account_id,
                                    gn,
                                )) by {
                                    if g_eds[e].token_id == g_sfs[k as int].token_id {
                                        assert(g_eds[e].token_id == g_eds[i2 as int].token_id);
                                        assert(false);
                                    }
                                }
                            }
                            assert(gsf2 =~= (SwapFarmInfoView {
                                min_lock_time: g_eds[i2 as int].min_lock_time,
                                max_lock_time: g_eds[i2 as int].max_lock_time,
                                swap_rate: g_eds[i2 as int].swap_rate,
                                ..g_sfs[k as int]
                            }));
                        }
                    } else {
                        proof {
                            assert(!editing_swap_applies(g_eds[i2 as int], account_id, gn));
                        }
                        let ed = EditingSwapFarmInfoData {
                            token_id,
                            swap_rate,
                            min_lock_time,
                            max_lock_time,
                            confirmed_admins: conf,
                        };
                        let ghost ged2 = ed@;
                        self.editing_swap_farm_infos.set(i2, ed);
                        proof {
                            assert(ged2 =~= admin_purged_editing(
                                g_eds[i2 as int],
                                account_id,
                                gn,
                            ));
                            assert(self@.editing_swap_farm_infos =~= pre_iter.editing_swap_farm_infos.update(
                                i2 as int,
                                ged2,
                            ));
                        }
                    }
                },
                Option::None => {
                    proof {
                        assert(!g_eds[i2 as int].confirmed_admins.contains(account_id));
                        assert(self@.editing_swap_farm_infos[i2 as int] == admin_purged_editing(
                            g_eds[i2 as int],
                            account_id,
                            gn,
                        ));
                    }
                },
            }
            i2 = i2 + 1;
        }
        // tie the loop's outcome to the per-pool purge
        proof {
            assert forall|k: int| 0 <= k < g_sfs.len() implies #[trigger] self@.swap_farms[k]
                == admin_purged_swap_farm(g_sfs[k], g_eds, account_id, gn) by {
                if purge_applies_to(g_eds, g_sfs[k].token_id, account_id, gn) {
                    let e = choose|e: int|
                        0 <= e < g_eds.len() && (#[trigger] g_eds[e]).token_id == g_sfs[
                            k
                        ].token_id && editing_swap_applies(g_eds[e], account_id, gn);
                    assert(self@.swap_farms[k] == (SwapFarmInfoView {
                        min_lock_time: g_eds[e].min_lock_time,
                        max_lock_time: g_eds[e].max_lock_time,
                        swap_rate: g_eds[e].swap_rate,
                        ..g_sfs[k]
                    }));
                } else {
                    assert forall|e: int|
                        0 <= e < g_eds.len() implies !((#[trigger] g_eds[e]).token_id == g_sfs[
                        k
                    ].token_id && editing_swap_applies(g_eds[e], account_id, gn)) by {}
                }
            }
            assert(self@.editing_swap_farm_infos =~= Seq::new(
                g_eds.len(),
                |e: int| admin_purged_editing(g_eds[e], account_id, gn),
            ));
            assert(self@.swap_farms =~= Seq::new(
                g_sfs.len(),
                |k: int| admin_purged_swap_farm(g_sfs[k], g_eds, account_id, gn),
            ));
            assert(self@ =~= (ContractView {
                editing_swap_farm_infos: Seq::new(
                    g_eds.len(),
                    |e: int| admin_purged_editing(g_eds[e], account_id, gn),
                ),
                swap_farms: Seq::new(
                    g_sfs.len(),
                    |k: int| admin_purged_swap_farm(g_sfs[k], g_eds, account_id, gn),
                ),
                ..mid
            }));
            // well-formedness of the purged collections
            assert forall|q: int| 0 <= q < self@.editing_swap_farm_infos.len() implies (
            #[trigger] self@.editing_swap_farm_infos[q]).wf() by {
                lemma_removed_u64_unique(g_eds[q].confirmed_admins, account_id);
            }
            assert forall|q: int| 0 <= q < self@.swap_farms.len() implies (
            #[trigger] self@.swap_farms[q]).wf() by {
                assert(self@.swap_farms[q].stake_infos == g_sfs[q].stake_infos);
            }
        }
        Ok(())
    }
}

} // verus!
