//! The deposit flows: staking a token or an LP share into a farm, or
//! converting a foreign token through a conversion pool.
//!
//! A deposit first settles the farm for the deposited class (so new weight
//! does not dilute reward already earned), then appends a lock-schedule
//! entry, credits the balances, and adds a freshly computed weight to the
//! position and the farm. The fields of the other asset classes in the new
//! entry are zero-filled so all per-class lock vectors stay index-aligned.
use vstd::prelude::*;

use crate::errors::StakingError;
use crate::farm_info::FarmInfoView;
use crate::internal::lemma_settle_farm_shape;
use crate::internal::settle_farm;
use crate::internal::settled_farm_value;
use crate::math::lp_deposit_weight;
use crate::math::lp_deposit_weight_spec;
use crate::math::swap_converted;
use crate::math::swap_converted_spec;
use crate::math::token_deposit_weight;
use crate::math::token_deposit_weight_spec;
use crate::stake_info::SwapStakeInfoView;
use crate::stake_info::StakeInfo;
use crate::stake_info::StakeInfoView;
use crate::stake_info::SwapStakeInfo;
use crate::stake_info::copy_stake_info;
use crate::stake_info::copy_swap_stake_info;
use crate::stake_info::empty_stake;
use crate::stake_info::empty_swap_stake;
use crate::swap::SwapFarmInfoView;
use crate::swap::copy_swap_farm_info;
use crate::TokenStaked;
use crate::PoolStaked;

verus! {

/// The payload of a deposit trigger: which farm, which asset class, and
/// the chosen lock duration.
#[derive(Clone, Copy, Debug, PartialEq, Eq, Structural)]
pub struct StakingArgs {
    pub stake_type: u8,
    pub farm_id: u16,
    pub lock_duration: u64,
}

/// Whether some position in `stakes` belongs to `owner`.
pub open spec fn has_stake(stakes: Seq<StakeInfoView>, owner: u64) -> bool {
    exists|i: int| 0 <= i < stakes.len() && (#[trigger] stakes[i]).owner_id == owner
}

/// The index of `owner`'s position (meaningful under `has_stake` and
/// owner uniqueness).
pub open spec fn stake_index_of(stakes: Seq<StakeInfoView>, owner: u64) -> int {
    choose|i: int| 0 <= i < stakes.len() && (#[trigger] stakes[i]).owner_id == owner
}

/// With unique owners, any index holding `owner` is the index.
pub proof fn lemma_stake_index_of(stakes: Seq<StakeInfoView>, owner: u64, i: int)
    requires
        0 <= i < stakes.len(),
        stakes[i].owner_id == owner,
        forall|a: int, b: int|
            0 <= a < b < stakes.len() ==> stakes[a].owner_id != stakes[b].owner_id,
    ensures
        has_stake(stakes, owner),
        stake_index_of(stakes, owner) == i,
{
    assert(has_stake(stakes, owner));
    let j = stake_index_of(stakes, owner);
    if i < j {
        assert(stakes[i].owner_id != stakes[j].owner_id);
    } else if j < i {
        assert(stakes[j].owner_id != stakes[i].owner_id);
    }
}

/// The farm with a position for `owner`: unchanged where one exists, else
/// extended by a fresh empty position created at `now`.
pub open spec fn ensure_stake_farm(f: FarmInfoView, owner: u64, now: u64) -> FarmInfoView {
    if has_stake(f.stake_infos, owner) {
        f
    } else {
        FarmInfoView { stake_infos: f.stake_infos.push(empty_stake(owner, now)), ..f }
    }
}

/// Whether some position in `stakes` belongs to `owner`.
pub open spec fn has_swap_stake(stakes: Seq<SwapStakeInfoView>, owner: u64) -> bool {
    exists|i: int| 0 <= i < stakes.len() && (#[trigger] stakes[i]).owner_id == owner
}

/// The index of `owner`'s conversion position (meaningful under
/// `has_swap_stake` and owner uniqueness).
pub open spec fn swap_stake_index_of(stakes: Seq<SwapStakeInfoView>, owner: u64) -> int {
    choose|i: int| 0 <= i < stakes.len() && (#[trigger] stakes[i]).owner_id == owner
}

/// With unique owners, any index holding `owner` is the index.
pub proof fn lemma_swap_stake_index_of(stakes: Seq<SwapStakeInfoView>, owner: u64, i: int)
    requires
        0 <= i < stakes.len(),
        stakes[i].owner_id == owner,
        forall|a: int, b: int|
            0 <= a < b < stakes.len() ==> stakes[a].owner_id != stakes[b].owner_id,
    ensures
        has_swap_stake(stakes, owner),
        swap_stake_index_of(stakes, owner) == i,
{
    assert(has_swap_stake(stakes, owner));
    let j = swap_stake_index_of(stakes, owner);
    if i < j {
        assert(stakes[i].owner_id != stakes[j].owner_id);
    } else if j < i {
        assert(stakes[j].owner_id != stakes[i].owner_id);
    }
}

/// The conversion pool with a position for `owner`: unchanged where one
/// exists, else extended by a fresh empty position created at `now`.
pub open spec fn ensure_swap_stake_farm(
    f: SwapFarmInfoView,
    owner: u64,
    now: u64,
) -> SwapFarmInfoView {
    if has_swap_stake(f.stake_infos, owner) {
        f
    } else {
        SwapFarmInfoView { stake_infos: f.stake_infos.push(empty_swap_stake(owner, now)), ..f }
    }
}

/// The settled farm `f1` after a token deposit of `amount` locked for
/// `lock_duration` by `sender` at `now`: a lock entry is appended
/// (zero-filled for the other classes), the token balance and totals grow
/// by `amount`, the token checkpoint moves to `now` (never backwards), and the deposit's
/// weight (computed against the pool total after the deposit) is added to
/// the position and the farm. `None` marks a checked-arithmetic failure.
pub open spec fn token_deposit_farm(
    f1: FarmInfoView,
    sender: u64,
    amount: u128,
    lock_duration: u64,
    now: u64,
) -> Option<FarmInfoView> {
    let f = ensure_stake_farm(f1, sender, now);
    let i = stake_index_of(f.stake_infos, sender);
    let st0 = f.stake_infos[i];
    if now + lock_duration <= u64::MAX && st0.token_amount + amount <= u128::MAX
        && f.total_token_amount + amount <= u128::MAX {
        let total_after = (f.total_token_amount + amount) as u128;
        match token_deposit_weight_spec(
            amount,
            total_after,
            f.token_weight_rate,
            f.max_token_vesting_duration,
            lock_duration,
            f.token_decimal,
        ) {
            Option::None => Option::None,
            Option::Some(w) => if st0.token_weight + w <= u128::MAX && f.total_token_weight + w
                <= u128::MAX {
                Option::Some(
                    FarmInfoView {
                        stake_infos: f.stake_infos.update(
                            i,
                            StakeInfoView {
                                token_locked: st0.token_locked.push(amount),
                                lp_share_locked: st0.lp_share_locked.push(0),
                                reward_locked: st0.reward_locked.push(0),
                                staking_duration: st0.staking_duration.push(lock_duration),
                                unlocked_at: st0.unlocked_at.push((now + lock_duration) as u64),
                                claimed_token_at: if now > st0.claimed_token_at {
                                    now
                                } else {
                                    st0.claimed_token_at
                                },
                                token_amount: (st0.token_amount + amount) as u128,
                                token_weight: (st0.token_weight + w) as u128,
                                ..st0
                            },
                        ),
                        total_token_amount: total_after,
                        total_token_weight: (f.total_token_weight + w) as u128,
                        ..f
                    },
                )
            } else {
                Option::None
            },
        }
    } else {
        Option::None
    }
}

/// The settled farm `f1` after an LP-share deposit, as
/// `token_deposit_farm` but on the LP balance, weight, checkpoint and
/// lock column, with the LP weight formula.
pub open spec fn lp_deposit_farm(
    f1: FarmInfoView,
    sender: u64,
    amount: u128,
    lock_duration: u64,
    now: u64,
) -> Option<FarmInfoView> {
    let f = ensure_stake_farm(f1, sender, now);
    let i = stake_index_of(f.stake_infos, sender);
    let st0 = f.stake_infos[i];
    if now + lock_duration <= u64::MAX && st0.lp_share_amount + amount <= u128::MAX
        && f.total_lp_share_amount + amount <= u128::MAX {
        let total_after = (f.total_lp_share_amount + amount) as u128;
        match lp_deposit_weight_spec(
            amount,
            total_after,
            f.pool_weight_rate,
            f.max_token_vesting_duration,
            lock_duration,
        ) {
            Option::None => Option::None,
            Option::Some(w) => if st0.lp_share_weight + w <= u128::MAX && f.total_lp_share_weight
                + w <= u128::MAX {
                Option::Some(
                    FarmInfoView {
                        stake_infos: f.stake_infos.update(
                            i,
                            StakeInfoView {
                                token_locked: st0.token_locked.push(0),
                                lp_share_locked: st0.lp_share_locked.push(amount),
                                reward_locked: st0.reward_locked.push(0),
                                staking_duration: st0.staking_duration.push(lock_duration),
                                unlocked_at: st0.unlocked_at.push((now + lock_duration) as u64),
                                claimed_lp_at: if now > st0.claimed_lp_at {
                                    now
                                } else {
                                    st0.claimed_lp_at
                                },
                                lp_share_amount: (st0.lp_share_amount + amount) as u128,
                                lp_share_weight: (st0.lp_share_weight + w) as u128,
                                ..st0
                            },
                        ),
                        total_lp_share_amount: total_after,
                        total_lp_share_weight: (f.total_lp_share_weight + w) as u128,
                        ..f
                    },
                )
            } else {
                Option::None
            },
        }
    } else {
        Option::None
    }
}

/// A conversion pool after `sender` converts `amount` of the foreign token
/// at `now`: the converted amount is credited to the position and locked in
/// a fresh entry for the pool's full lock window, vesting from `now`.
/// `None` marks a checked-arithmetic failure.
pub open spec fn swap_deposit_farm(
    sf: SwapFarmInfoView,
    sender: u64,
    amount: u128,
    now: u64,
) -> Option<SwapFarmInfoView> {
    match swap_converted_spec(amount, sf.token_decimal, sf.swap_rate) {
        Option::None => Option::None,
        Option::Some(conv) => {
            let f = ensure_swap_stake_farm(sf, sender, now);
            let i = swap_stake_index_of(f.stake_infos, sender);
            let st0 = f.stake_infos[i];
            if st0.token_amount + conv <= u128::MAX && now + sf.max_lock_time <= u64::MAX {
                Option::Some(
                    SwapFarmInfoView {
                        stake_infos: f.stake_infos.update(
                            i,
                            SwapStakeInfoView {
                                token_amount: (st0.token_amount + conv) as u128,
                                token_locked: st0.token_locked.push(conv),
                                unlocked_at: st0.unlocked_at.push((now + sf.max_lock_time) as u64),
                                claimed_token_at: st0.claimed_token_at.push(now),
                                ..st0
                            },
                        ),
                        ..f
                    },
                )
            } else {
                Option::None
            }
        },
    }
}

/// The aggregate token-staked counters after `amount` more of `token_id`
/// is staked. `None` marks a counter overflow.
pub open spec fn bumped_token_staked(
    s: Seq<TokenStaked>,
    token_id: u64,
    amount: u128,
) -> Option<Seq<TokenStaked>> {
    if exists|k: int| 0 <= k < s.len() && (#[trigger] s[k]).token_id == token_id {
        let k = choose|k: int| 0 <= k < s.len() && (#[trigger] s[k]).token_id == token_id;
        if s[k].amount + amount <= u128::MAX {
            Option::Some(s.update(k, TokenStaked { token_id, amount: (s[k].amount + amount) as u128 }))
        } else {
            Option::None
        }
    } else {
        Option::Some(s.push(TokenStaked { token_id, amount }))
    }
}

/// The aggregate LP-staked counters after `amount` more of pool
/// `pool_id`'s shares are staked. `None` marks a counter overflow.
pub open spec fn bumped_pool_staked(
    s: Seq<PoolStaked>,
    pool_id: u64,
    amount: u128,
) -> Option<Seq<PoolStaked>> {
    if exists|k: int| 0 <= k < s.len() && (#[trigger] s[k]).pool_id == pool_id {
        let k = choose|k: int| 0 <= k < s.len() && (#[trigger] s[k]).pool_id == pool_id;
        if s[k].amount + amount <= u128::MAX {
            Option::Some(s.update(k, PoolStaked { pool_id, amount: (s[k].amount + amount) as u128 }))
        } else {
            Option::None
        }
    } else {
        Option::Some(s.push(PoolStaked { pool_id, amount }))
    }
}

/// With unique keys, any index holding `token_id` is the chosen one.
pub proof fn lemma_token_staked_index(s: Seq<TokenStaked>, token_id: u64, k: int)
    requires
        0 <= k < s.len(),
        s[k].token_id == token_id,
        forall|a: int, b: int| 0 <= a < b < s.len() ==> s[a].token_id != s[b].token_id,
    ensures
        exists|j: int| 0 <= j < s.len() && (#[trigger] s[j]).token_id == token_id,
        (choose|j: int| 0 <= j < s.len() && (#[trigger] s[j]).token_id == token_id) == k,
{
    assert(0 <= k < s.len() && (#[trigger] s[k]).token_id == token_id);
    let j = choose|j: int| 0 <= j < s.len() && (#[trigger] s[j]).token_id == token_id;
    if k < j {
        assert(s[k].token_id != s[j].token_id);
    } else if j < k {
        assert(s[j].token_id != s[k].token_id);
    }
}

/// With unique keys, any index holding `pool_id` is the chosen one.
pub proof fn lemma_pool_staked_index(s: Seq<PoolStaked>, pool_id: u64, k: int)
    requires
        0 <= k < s.len(),
        s[k].pool_id == pool_id,
        forall|a: int, b: int| 0 <= a < b < s.len() ==> s[a].pool_id != s[b].pool_id,
    ensures
        exists|j: int| 0 <= j < s.len() && (#[trigger] s[j]).pool_id == pool_id,
        (choose|j: int| 0 <= j < s.len() && (#[trigger] s[j]).pool_id == pool_id) == k,
{
    assert(0 <= k < s.len() && (#[trigger] s[k]).pool_id == pool_id);
    let j = choose|j: int| 0 <= j < s.len() && (#[trigger] s[j]).pool_id == pool_id;
    if k < j {
        assert(s[k].pool_id != s[j].pool_id);
    } else if j < k {
        assert(s[j].pool_id != s[k].pool_id);
    }
}


impl crate::Contract {
    /// A fungible-token deposit event: `sender_id` sent `amount` of
    /// `ft_token_id` with the staking payload `args`, at time `now`.
    /// If the token has a conversion pool and the payload asks for a swap
    /// stake, the amount is converted and locked there; otherwise it is
    /// staked into the named farm (which must accept tokens), after the
    /// farm's token class is settled. A deposit to a farm of a different
    /// token commits only the settlement. Returns the refund owed to the
    /// sender, always zero. On any error the ledger is unchanged.
    #[verifier::rlimit(60)]
    pub fn ft_on_transfer(
        &mut self,
        sender_id: u64,
        ft_token_id: u64,
        amount: u128,
        args: StakingArgs,
        now: u64,
    ) -> (r: Result<u128, StakingError>)
        requires
            old(self)@.wf(),
        ensures
            final(self)@.wf(),
            match r {
                Ok(refund) => refund == 0 && amount > 0 && ({
                    if args.stake_type == 1 && (exists|k: int|
                        0 <= k < old(self)@.swap_farms.len() && (#[trigger] old(self)@.swap_farms[
                            k
                        ]).token_id == ft_token_id) {
                        exists|k: int|
                            #![auto]
                            0 <= k < old(self)@.swap_farms.len() && old(self)@.swap_farms[
                                k
                            ].token_id == ft_token_id && swap_deposit_farm(
                                old(self)@.swap_farms[k],
                                sender_id,
                                amount,
                                now,
                            ) is Some && final(self)@ == (crate::ContractView {
                                swap_farms: old(self)@.swap_farms.update(
                                    k,
                                    swap_deposit_farm(
                                        old(self)@.swap_farms[k],
                                        sender_id,
                                        amount,
                                        now,
                                    )->0,
                                ),
                                ..old(self)@
                            })
                    } else {
                        (args.farm_id as int) < old(self)@.farm_infos.len() && ({
                            let farm = old(self)@.farm_infos[args.farm_id as int];
                            &&& (farm.farm_type == 0 || farm.farm_type == 2)
                            &&& settle_farm(farm, 0, now) is Some
                            &&& ({
                                let f1 = settle_farm(farm, 0, now)->0;
                                if ft_token_id == farm.token_id {
                                    &&& token_deposit_farm(
                                        f1,
                                        sender_id,
                                        amount,
                                        args.lock_duration,
                                        now,
                                    ) is Some
                                    &&& bumped_token_staked(
                                        old(self)@.token_stake_info,
                                        ft_token_id,
                                        amount,
                                    ) is Some
                                    &&& final(self)@ == (crate::ContractView {
                                        farm_infos: old(self)@.farm_infos.update(
                                            args.farm_id as int,
                                            token_deposit_farm(
                                                f1,
                                                sender_id,
                                                amount,
                                                args.lock_duration,
                                                now,
                                            )->0,
                                        ),
                                        token_stake_info: bumped_token_staked(
                                            old(self)@.token_stake_info,
                                            ft_token_id,
                                            amount,
                                        )->0,
                                        ..old(self)@
                                    })
                                } else {
                                    final(self)@ == (crate::ContractView {
                                        farm_infos: old(self)@.farm_infos.update(
                                            args.farm_id as int,
                                            f1,
                                        ),
                                        ..old(self)@
                                    })
                                }
                            })
                        })
                    }
                }),
                Err(e) => final(self)@ == old(self)@ && (e == StakingError::InvalidAmount || e
                    == StakingError::InvalidReference || e == StakingError::Arithmetic),
            },
            (r is Err && r->Err_0 == StakingError::InvalidAmount) <==> amount == 0,
            r is Err && r->Err_0 == StakingError::InvalidReference ==> (
            (args.farm_id as int) >= old(self)@.farm_infos.len() || (old(self)@.farm_infos[
                args.farm_id as int
            ].farm_type != 0 && old(self)@.farm_infos[args.farm_id as int].farm_type != 2)),
            r is Err && r->Err_0 == StakingError::Arithmetic ==> ({
                if args.stake_type == 1 && (exists|k: int|
                    0 <= k < old(self)@.swap_farms.len() && (#[trigger] old(self)@.swap_farms[
                        k
                    ]).token_id == ft_token_id) {
                    exists|k: int|
                        #![auto]
                        0 <= k < old(self)@.swap_farms.len() && old(self)@.swap_farms[k].token_id
                            == ft_token_id && swap_deposit_farm(
                            old(self)@.swap_farms[k],
                            sender_id,
                            amount,
                            now,
                        ) is None
                } else {
                    (args.farm_id as int) < old(self)@.farm_infos.len() && ({
                        let farm = old(self)@.farm_infos[args.farm_id as int];
                        ||| settle_farm(farm, 0, now) is None
                        ||| (ft_token_id == farm.token_id && settle_farm(farm, 0, now) is Some
                            && (token_deposit_farm(
                            settle_farm(farm, 0, now)->0,
                            sender_id,
                            amount,
                            args.lock_duration,
                            now,
                        ) is None || bumped_token_staked(
                            old(self)@.token_stake_info,
                            ft_token_id,
                            amount,
                        ) is None))
                    })
                }
            }),
    {
        if amount == 0 {
            return Err(StakingError::InvalidAmount);
        }
        let swap_found = self.find_swap_farm(ft_token_id);
        if args.stake_type == 1 {
            match swap_found {
                Option::Some(k) => {
                    let ghost gsf = self@.swap_farms[k as int];
                    let sf_ref = &self.swap_farms[k];
                    proof {
                        assert(gsf.wf());
                    }
                    let conv = match swap_converted(amount, sf_ref.token_decimal, sf_ref.swap_rate) {
                        Ok(v) => v,
                        Err(e) => {
                            proof {
                                assert(swap_deposit_farm(gsf, sender_id, amount, now) is None);
                            }
                            return Err(e);
                        },
                    };
                    let mut sf = copy_swap_farm_info(sf_ref);
                    let idx: usize;
                    match sf.find_stake(sender_id) {
                        Option::Some(j) => {
                            idx = j;
                            proof {
                                lemma_swap_stake_index_of(gsf.stake_infos, sender_id, j as int);
                                assert(ensure_swap_stake_farm(gsf, sender_id, now) == gsf);
                            }
                        },
                        Option::None => {
                            idx = sf.stake_infos.len();
                            sf.stake_infos.push(SwapStakeInfo::empty(sender_id, now));
                            proof {
                                assert(!has_swap_stake(gsf.stake_infos, sender_id));
                                assert(sf@.stake_infos =~= gsf.stake_infos.push(
                                    empty_swap_stake(sender_id, now),
                                ));
                                assert(sf@ =~= ensure_swap_stake_farm(gsf, sender_id, now));
                                lemma_swap_stake_index_of(
                                    sf@.stake_infos,
                                    sender_id,
                                    idx as int,
                                );
                            }
                        },
                    }
                    proof {
                        assert(sf@ == ensure_swap_stake_farm(gsf, sender_id, now));
                        assert(idx as int == swap_stake_index_of(sf@.stake_infos, sender_id));
                    }
                    let mut st = copy_swap_stake_info(&sf.stake_infos[idx]);
                    let new_amt = match st.token_amount.checked_add(conv) {
                        Option::Some(v) => v,
                        Option::None => {
                            proof {
                                assert(swap_deposit_farm(gsf, sender_id, amount, now) is None);
                            }
                            return Err(StakingError::Arithmetic);
                        },
                    };
                    let unlock = match now.checked_add(sf.max_lock_time) {
                        Option::Some(v) => v,
                        Option::None => {
                            proof {
                                assert(swap_deposit_farm(gsf, sender_id, amount, now) is None);
                            }
                            return Err(StakingError::Arithmetic);
                        },
                    };
                    st.token_amount = new_amt;
                    st.token_locked.push(conv);
                    st.unlocked_at.push(unlock);
                    st.claimed_token_at.push(now);
                    let ghost gst2 = st@;
                    sf.stake_infos.set(idx, st);
                    proof {
                        assert(sf@.stake_infos =~= swap_deposit_farm(
                            gsf,
                            sender_id,
                            amount,
                            now,
                        )->0.stake_infos);
                        assert(sf@ =~= swap_deposit_farm(gsf, sender_id, amount, now)->0);
                    }
                    let ghost gsf2 = sf@;
                    let ghost pre = self@;
                    self.swap_farms.set(k, sf);
                    proof {
                        assert(self@ =~= (crate::ContractView {
                            swap_farms: pre.swap_farms.update(
                                k as int,
                                swap_deposit_farm(gsf, sender_id, amount, now)->0,
                            ),
                            ..pre
                        }));
                        assert forall|q: int| 0 <= q < self@.swap_farms.len() implies (
                        #[trigger] self@.swap_farms[q]).wf() by {
                            if q != k as int {
                                assert(self@.swap_farms[q] == pre.swap_farms[q]);
                            } else {
                                assert(self@.swap_farms[q] == gsf2);
                            }
                        }
                    }
                    return Ok(0);
                },
                Option::None => {},
            }
        }
        if (args.farm_id as usize) >= self.farm_infos.len() {
            return Err(StakingError::InvalidReference);
        }
        let farm_ref = &self.farm_infos[args.farm_id as usize];
        let ghost gfarm = self@.farm_infos[args.farm_id as int];
        if !(farm_ref.farm_type == 0 || farm_ref.farm_type == 2) {
            return Err(StakingError::InvalidReference);
        }
        let f1 = match settled_farm_value(farm_ref, 0, now) {
            Ok(v) => v,
            Err(e) => { return Err(e) },
        };
        let ghost gf1 = f1@;
        if ft_token_id == farm_ref.token_id {
            let mut f2 = f1;
            let idx: usize;
            match f2.find_stake(sender_id) {
                Option::Some(j) => {
                    idx = j;
                    proof {
                        lemma_stake_index_of(gf1.stake_infos, sender_id, j as int);
                        assert(ensure_stake_farm(gf1, sender_id, now) == gf1);
                    }
                },
                Option::None => {
                    idx = f2.stake_infos.len();
                    f2.stake_infos.push(StakeInfo::empty(sender_id, now));
                    proof {
                        assert(!has_stake(gf1.stake_infos, sender_id));
                        assert(f2@.stake_infos =~= gf1.stake_infos.push(
                            empty_stake(sender_id, now),
                        ));
                        assert(f2@ =~= ensure_stake_farm(gf1, sender_id, now));
                        lemma_stake_index_of(f2@.stake_infos, sender_id, idx as int);
                    }
                },
            }
            proof {
                assert(f2@ == ensure_stake_farm(gf1, sender_id, now));
                assert(idx as int == stake_index_of(f2@.stake_infos, sender_id));
                assert(f2@.stake_infos[idx as int].wf());
            }
            let mut st = copy_stake_info(&f2.stake_infos[idx]);
            let unlock = match now.checked_add(args.lock_duration) {
                Option::Some(v) => v,
                Option::None => {
                    proof {
                        assert(token_deposit_farm(gf1, sender_id, amount, args.lock_duration, now)
                            is None);
                    }
                    return Err(StakingError::Arithmetic);
                },
            };
            let new_amt = match st.token_amount.checked_add(amount) {
                Option::Some(v) => v,
                Option::None => {
                    proof {
                        assert(token_deposit_farm(gf1, sender_id, amount, args.lock_duration, now)
                            is None);
                    }
                    return Err(StakingError::Arithmetic);
                },
            };
            let new_total = match f2.total_token_amount.checked_add(amount) {
                Option::Some(v) => v,
                Option::None => {
                    proof {
                        assert(token_deposit_farm(gf1, sender_id, amount, args.lock_duration, now)
                            is None);
                    }
                    return Err(StakingError::Arithmetic);
                },
            };
            let w = match token_deposit_weight(
                amount,
                new_total,
                f2.token_weight_rate,
                f2.max_token_vesting_duration,
                args.lock_duration,
                f2.token_decimal,
            ) {
                Ok(v) => v,
                Err(e) => {
                    proof {
                        assert(token_deposit_farm(gf1, sender_id, amount, args.lock_duration, now)
                            is None);
                    }
                    return Err(e);
                },
            };
            let new_w = match st.token_weight.checked_add(w) {
                Option::Some(v) => v,
                Option::None => {
                    proof {
                        assert(token_deposit_farm(gf1, sender_id, amount, args.lock_duration, now)
                            is None);
                    }
                    return Err(StakingError::Arithmetic);
                },
            };
            let new_tw = match f2.total_token_weight.checked_add(w) {
                Option::Some(v) => v,
                Option::None => {
                    proof {
                        assert(token_deposit_farm(gf1, sender_id, amount, args.lock_duration, now)
                            is None);
                    }
                    return Err(StakingError::Arithmetic);
                },
            };
            // the aggregate counter, computed before anything is committed
            let counter_idx = self.find_token_staked(ft_token_id);
            let new_counter: u128;
            match counter_idx {
                Option::Some(c) => {
                    proof {
                        lemma_token_staked_index(
                            self@.token_stake_info,
                            ft_token_id,
                            c as int,
                        );
                    }
                    new_counter = match self.token_stake_info[c].amount.checked_add(amount) {
                        Option::Some(v) => v,
                        Option::None => {
                            proof {
                                assert(bumped_token_staked(
                                    self@.token_stake_info,
                                    ft_token_id,
                                    amount,
                                ) is None);
                            }
                            return Err(StakingError::Arithmetic);
                        },
                    };
                },
                Option::None => {
                    new_counter = amount;
                },
            }
            st.token_locked.push(amount);
            st.lp_share_locked.push(0);
            st.reward_locked.push(0);
            st.staking_duration.push(args.lock_duration);
            st.unlocked_at.push(unlock);
            if now > st.claimed_token_at {
                st.claimed_token_at = now;
            }
            st.token_amount = new_amt;
            st.token_weight = new_w;
            let ghost gst2 = st@;
            f2.stake_infos.set(idx, st);
            f2.total_token_amount = new_total;
            f2.total_token_weight = new_tw;
            proof {
                assert(f2@.stake_infos =~= token_deposit_farm(
                    gf1,
                    sender_id,
                    amount,
                    args.lock_duration,
                    now,
                )->0.stake_infos);
                assert(f2@ =~= token_deposit_farm(
                    gf1,
                    sender_id,
                    amount,
                    args.lock_duration,
                    now,
                )->0);
            }
            let ghost gf2 = f2@;
            let ghost pre = self@;
            self.farm_infos.set(args.farm_id as usize, f2);
            match counter_idx {
                Option::Some(c) => {
                    self.token_stake_info.set(
                        c,
                        TokenStaked { token_id: ft_token_id, amount: new_counter },
                    );
                },
                Option::None => {
                    self.token_stake_info.push(
                        TokenStaked { token_id: ft_token_id, amount: new_counter },
                    );
                },
            }
            proof {
                assert(self@ =~= (crate::ContractView {
                    farm_infos: pre.farm_infos.update(args.farm_id as int, gf2),
                    token_stake_info: bumped_token_staked(
                        pre.token_stake_info,
                        ft_token_id,
                        amount,
                    )->0,
                    ..pre
                }));
                assert forall|q: int| 0 <= q < self@.farm_infos.len() implies (
                #[trigger] self@.farm_infos[q]).wf() by {
                    if q != args.farm_id as int {
                        assert(self@.farm_infos[q] == pre.farm_infos[q]);
                    } else {
                        assert(self@.farm_infos[q] == gf2);
                    }
                }
                assert forall|a: int, b: int|
                    0 <= a < b < self@.token_stake_info.len() implies self@.token_stake_info[
                    a
                ].token_id != self@.token_stake_info[b].token_id by {
                    if b < pre.token_stake_info.len() {
                        assert(pre.token_stake_info[a].token_id != pre.token_stake_info[
                            b
                        ].token_id);
                    } else {
                        assert(pre.token_stake_info[a] == self@.token_stake_info[a]);
                    }
                }
            }
            Ok(0)
        } else {
            let ghost pre = self@;
            self.farm_infos.set(args.farm_id as usize, f1);
            proof {
                assert(self@ =~= (crate::ContractView {
                    farm_infos: pre.farm_infos.update(args.farm_id as int, gf1),
                    ..pre
                }));
                assert forall|q: int| 0 <= q < self@.farm_infos.len() implies (
                #[trigger] self@.farm_infos[q]).wf() by {
                    if q != args.farm_id as int {
                        assert(self@.farm_infos[q] == pre.farm_infos[q]);
                    }
                }
            }
            Ok(0)
        }
    }
}


impl crate::Contract {
    /// An LP-share deposit event with the pool already identified:
    /// `sender_id` sent `amount` of pool `pool_id`'s shares with the
    /// staking payload `args`, at time `now`.
    /// The named farm (which must accept LP shares) has its LP class
    /// settled; if the farm is for this pool, the shares are staked there.
    /// A deposit for a different pool commits only the settlement. Returns
    /// the refund owed to the sender, always zero. On any error the ledger
    /// is unchanged.
    pub fn mft_deposit(
        &mut self,
        pool_id: u64,
        sender_id: u64,
        amount: u128,
        args: StakingArgs,
        now: u64,
    ) -> (r: Result<u128, StakingError>)
        requires
            old(self)@.wf(),
        ensures
            final(self)@.wf(),
            match r {
                Ok(refund) => refund == 0 && amount > 0 && (args.farm_id as int) < old(
                    self,
                )@.farm_infos.len() && ({
                    let farm = old(self)@.farm_infos[args.farm_id as int];
                    &&& (farm.farm_type == 1 || farm.farm_type == 2)
                    &&& settle_farm(farm, 1, now) is Some
                    &&& ({
                        let f1 = settle_farm(farm, 1, now)->0;
                        if pool_id == farm.pool_id {
                            &&& lp_deposit_farm(f1, sender_id, amount, args.lock_duration, now)
                                is Some
                            &&& bumped_pool_staked(old(self)@.lp_stake_info, pool_id, amount)
                                is Some
                            &&& final(self)@ == (crate::ContractView {
                                farm_infos: old(self)@.farm_infos.update(
                                    args.farm_id as int,
                                    lp_deposit_farm(
                                        f1,
                                        sender_id,
                                        amount,
                                        args.lock_duration,
                                        now,
                                    )->0,
                                ),
                                lp_stake_info: bumped_pool_staked(
                                    old(self)@.lp_stake_info,
                                    pool_id,
                                    amount,
                                )->0,
                                ..old(self)@
                            })
                        } else {
                            final(self)@ == (crate::ContractView {
                                farm_infos: old(self)@.farm_infos.update(
                                    args.farm_id as int,
                                    f1,
                                ),
                                ..old(self)@
                            })
                        }
                    })
                }),
                Err(e) => final(self)@ == old(self)@ && (e == StakingError::InvalidAmount || e
                    == StakingError::InvalidReference || e == StakingError::Arithmetic),
            },
            (r is Err && r->Err_0 == StakingError::InvalidAmount) <==> amount == 0,
            r is Err && r->Err_0 == StakingError::InvalidReference ==> (
            (args.farm_id as int) >= old(self)@.farm_infos.len() || (old(self)@.farm_infos[
                args.farm_id as int
            ].farm_type != 1 && old(self)@.farm_infos[args.farm_id as int].farm_type != 2)),
            r is Err && r->Err_0 == StakingError::Arithmetic ==> (args.farm_id as int) < old(
                self,
            )@.farm_infos.len() && ({
                let farm = old(self)@.farm_infos[args.farm_id as int];
                ||| settle_farm(farm, 1, now) is None
                ||| (pool_id == farm.pool_id && settle_farm(farm, 1, now) is Some && (
                lp_deposit_farm(
                    settle_farm(farm, 1, now)->0,
                    sender_id,
                    amount,
                    args.lock_duration,
                    now,
                ) is None || bumped_pool_staked(old(self)@.lp_stake_info, pool_id, amount)
                    is None))
            }),
    {
        if amount == 0 {
            return Err(StakingError::InvalidAmount);
        }
        if (args.farm_id as usize) >= self.farm_infos.len() {
            return Err(StakingError::InvalidReference);
        }
        let farm_ref = &self.farm_infos[args.farm_id as usize];
        let ghost gfarm = self@.farm_infos[args.farm_id as int];
        if !(farm_ref.farm_type == 1 || farm_ref.farm_type == 2) {
            return Err(StakingError::InvalidReference);
        }
        let f1 = match settled_farm_value(farm_ref, 1, now) {
            Ok(v) => v,
            Err(e) => { return Err(e) },
        };
        let ghost gf1 = f1@;
        if pool_id == farm_ref.pool_id {
            let mut f2 = f1;
            let idx: usize;
            match f2.find_stake(sender_id) {
                Option::Some(j) => {
                    idx = j;
                    proof {
                        lemma_stake_index_of(gf1.stake_infos, sender_id, j as int);
                        assert(ensure_stake_farm(gf1, sender_id, now) == gf1);
                    }
                },
                Option::None => {
                    idx = f2.stake_infos.len();
                    f2.stake_infos.push(StakeInfo::empty(sender_id, now));
                    proof {
                        assert(!has_stake(gf1.stake_infos, sender_id));
                        assert(f2@.stake_infos =~= gf1.stake_infos.push(
                            empty_stake(sender_id, now),
                        ));
                        assert(f2@ =~= ensure_stake_farm(gf1, sender_id, now));
                        lemma_stake_index_of(f2@.stake_infos, sender_id, idx as int);
                    }
                },
            }
            proof {
                assert(f2@ == ensure_stake_farm(gf1, sender_id, now));
                assert(idx as int == stake_index_of(f2@.stake_infos, sender_id));
                assert(f2@.stake_infos[idx as int].wf());
            }
            let mut st = copy_stake_info(&f2.stake_infos[idx]);
            let unlock = match now.checked_add(args.lock_duration) {
                Option::Some(v) => v,
                Option::None => {
                    proof {
                        assert(lp_deposit_farm(gf1, sender_id, amount, args.lock_duration, now)
                            is None);
                    }
                    return Err(StakingError::Arithmetic);
                },
            };
            let new_amt = match st.lp_share_amount.checked_add(amount) {
                Option::Some(v) => v,
                Option::None => {
                    proof {
                        assert(lp_deposit_farm(gf1, sender_id, amount, args.lock_duration, now)
                            is None);
                    }
                    return Err(StakingError::Arithmetic);
                },
            };
            let new_total = match f2.total_lp_share_amount.checked_add(amount) {
                Option::Some(v) => v,
                Option::None => {
                    proof {
                        assert(lp_deposit_farm(gf1, sender_id, amount, args.lock_duration, now)
                            is None);
                    }
                    return Err(StakingError::Arithmetic);
                },
            };
            let w = match lp_deposit_weight(
                amount,
                new_total,
                f2.pool_weight_rate,
                f2.max_token_vesting_duration,
                args.lock_duration,
            ) {
                Ok(v) => v,
                Err(e) => {
                    proof {
                        assert(lp_deposit_farm(gf1, sender_id, amount, args.lock_duration, now)
                            is None);
                    }
                    return Err(e);
                },
            };
            let new_w = match st.lp_share_weight.checked_add(w) {
                Option::Some(v) => v,
                Option::None => {
                    proof {
                        assert(lp_deposit_farm(gf1, sender_id, amount, args.lock_duration, now)
                            is None);
                    }
                    return Err(StakingError::Arithmetic);
                },
            };
            let new_tw = match f2.total_lp_share_weight.checked_add(w) {
                Option::Some(v) => v,
                Option::None => {
                    proof {
                        assert(lp_deposit_farm(gf1, sender_id, amount, args.lock_duration, now)
                            is None);
                    }
                    return Err(StakingError::Arithmetic);
                },
            };
            let counter_idx = self.find_pool_staked(pool_id);
            let new_counter: u128;
            match counter_idx {
                Option::Some(c) => {
                    proof {
                        lemma_pool_staked_index(self@.lp_stake_info, pool_id, c as int);
                    }
                    new_counter = match self.lp_stake_info[c].amount.checked_add(amount) {
                        Option::Some(v) => v,
                        Option::None => {
                            proof {
                                assert(bumped_pool_staked(
                                    self@.lp_stake_info,
                                    pool_id,
                                    amount,
                                ) is None);
                            }
                            return Err(StakingError::Arithmetic);
                        },
                    };
                },
                Option::None => {
                    new_counter = amount;
                },
            }
            st.token_locked.push(0);
            st.lp_share_locked.push(amount);
            st.reward_locked.push(0);
            st.staking_duration.push(args.lock_duration);
            st.unlocked_at.push(unlock);
            if now > st.claimed_lp_at {
                st.claimed_lp_at = now;
            }
            st.lp_share_amount = new_amt;
            st.lp_share_weight = new_w;
            let ghost gst2 = st@;
            f2.stake_infos.set(idx, st);
            f2.total_lp_share_amount = new_total;
            f2.total_lp_share_weight = new_tw;
            proof {
                assert(f2@.stake_infos =~= lp_deposit_farm(
                    gf1,
                    sender_id,
                    amount,
                    args.lock_duration,
                    now,
                )->0.stake_infos);
                assert(f2@ =~= lp_deposit_farm(
                    gf1,
                    sender_id,
                    amount,
                    args.lock_duration,
                    now,
                )->0);
            }
            let ghost gf2 = f2@;
            let ghost pre = self@;
            self.farm_infos.set(args.farm_id as usize, f2);
            match counter_idx {
                Option::Some(c) => {
                    self.lp_stake_info.set(c, PoolStaked { pool_id, amount: new_counter });
                },
                Option::None => {
                    self.lp_stake_info.push(PoolStaked { pool_id, amount: new_counter });
                },
            }
            proof {
                assert(self@ =~= (crate::ContractView {
                    farm_infos: pre.farm_infos.update(args.farm_id as int, gf2),
                    lp_stake_info: bumped_pool_staked(pre.lp_stake_info, pool_id, amount)->0,
                    ..pre
                }));
                assert forall|q: int| 0 <= q < self@.farm_infos.len() implies (
                #[trigger] self@.farm_infos[q]).wf() by {
                    if q != args.farm_id as int {
                        assert(self@.farm_infos[q] == pre.farm_infos[q]);
                    } else {
                        assert(self@.farm_infos[q] == gf2);
                    }
                }
                assert forall|a: int, b: int|
                    0 <= a < b < self@.lp_stake_info.len() implies self@.lp_stake_info[
                    a
                ].pool_id != self@.lp_stake_info[b].pool_id by {
                    if b < pre.lp_stake_info.len() {
                        assert(pre.lp_stake_info[a].pool_id != pre.lp_stake_info[b].pool_id);
                    } else {
                        assert(pre.lp_stake_info[a] == self@.lp_stake_info[a]);
                    }
                }
            }
            Ok(0)
        } else {
            let ghost pre = self@;
            self.farm_infos.set(args.farm_id as usize, f1);
            proof {
                assert(self@ =~= (crate::ContractView {
                    farm_infos: pre.farm_infos.update(args.farm_id as int, gf1),
                    ..pre
                }));
                assert forall|q: int| 0 <= q < self@.farm_infos.len() implies (
                #[trigger] self@.farm_infos[q]).wf() by {
                    if q != args.farm_id as int {
                        assert(self@.farm_infos[q] == pre.farm_infos[q]);
                    }
                }
            }
            Ok(0)
        }
    }
}


/// Whether `c` is an ASCII decimal digit.
pub open spec fn is_digit(c: char) -> bool {
    48 <= c as u32 <= 57
}

/// The value of one ASCII decimal digit.
pub open spec fn digit_val(c: char) -> int {
    c as u32 - 48
}

/// Whether every character of `s` is an ASCII decimal digit.
pub open spec fn all_digits(s: Seq<char>) -> bool {
    forall|i: int| 0 <= i < s.len() ==> is_digit(#[trigger] s[i])
}

/// The number the digit string `s` denotes, most significant first.
pub open spec fn digits_value(s: Seq<char>) -> int
    decreases s.len(),
{
    if s.len() == 0 {
        0
    } else {
        digits_value(s.drop_last()) * 10 + digit_val(s.last())
    }
}

/// A digit string's value never shrinks as more digits follow.
pub proof fn lemma_digits_value_take_le(s: Seq<char>, i: int, j: int)
    requires
        0 <= i <= j <= s.len(),
        all_digits(s),
    ensures
        0 <= digits_value(s.take(i)),
        digits_value(s.take(i)) <= digits_value(s.take(j)),
    decreases j,
{
    if i == 0 {
        assert(s.take(0) =~= Seq::<char>::empty());
    } else {
        lemma_digits_value_take_le(s, i - 1, i - 1);
        assert(s.take(i).drop_last() =~= s.take(i - 1));
        assert(is_digit(s[i - 1]));
    }
    if i < j {
        lemma_digits_value_take_le(s, i, j - 1);
        assert(s.take(j).drop_last() =~= s.take(j - 1));
        assert(is_digit(s[j - 1]));
    }
}

/// Whether `s` is a decimal numeral a `u64` can hold: an optional leading
/// plus sign, then at least one digit, with a value in range.
pub open spec fn u64_numeral(s: Seq<char>) -> bool {
    let body = if s.len() > 0 && s[0] == '+' {
        s.skip(1)
    } else {
        s
    };
    body.len() > 0 && all_digits(body) && digits_value(body) <= u64::MAX
}

/// The value of a `u64` numeral.
pub open spec fn u64_numeral_value(s: Seq<char>) -> int {
    if s.len() > 0 && s[0] == '+' {
        digits_value(s.skip(1))
    } else {
        digits_value(s)
    }
}

/// The pool id an LP token identifier carries: a colon followed by a
/// `u64` numeral, or nothing.
pub open spec fn pool_token_spec(s: Seq<char>) -> Option<u64> {
    if s.len() >= 1 && s[0] == ':' && u64_numeral(s.skip(1)) {
        Option::Some(u64_numeral_value(s.skip(1)) as u64)
    } else {
        Option::None
    }
}

/// Parse an LP token identifier of the form `:<pool id>`.
pub fn parse_pool_token_id(token_id: &str) -> (r: Option<u64>)
    ensures
        r == pool_token_spec(token_id@),
{
    let n = token_id.unicode_len();
    if n == 0 {
        return Option::None;
    }
    if token_id.get_char(0) != ':' {
        return Option::None;
    }
    let ghost rest = token_id@.skip(1);
    let mut start: usize = 1;
    if n > 1 && token_id.get_char(1) == '+' {
        start = 2;
    }
    proof {
        if start == 2 {
            assert(rest.len() > 0 && rest[0] == '+');
        } else {
            assert(!(rest.len() > 0 && rest[0] == '+'));
        }
    }
    let ghost body = if start == 2 {
        rest.skip(1)
    } else {
        rest
    };
    if start >= n {
        proof {
            assert(body.len() == 0);
        }
        return Option::None;
    }
    let mut acc: u64 = 0;
    let mut i: usize = start;
    while i < n
        invariant
            start <= i <= n,
            n == token_id@.len(),
            start == 1 || start == 2,
            body == (if start == 2 {
                token_id@.skip(1).skip(1)
            } else {
                token_id@.skip(1)
            }),
            body.len() == n - start,
            forall|j: int| 0 <= j < i - start ==> is_digit(#[trigger] body[j]),
            acc == digits_value(body.take(i - start)),
        decreases n - i,
    {
        let c = token_id.get_char(i);
        let cu = c as u32;
        if cu < 48 || cu > 57 {
            proof {
                assert(body[i - start] == token_id@[i as int]);
                assert(!is_digit(body[i - start]));
            }
            return Option::None;
        }
        let d: u64 = (cu - 48) as u64;
        let acc10 = match acc.checked_mul(10) {
            Option::Some(v) => v,
            Option::None => {
                proof {
                    lemma_numeral_overflow(body, i - start, d as int);
                }
                return Option::None;
            },
        };
        acc = match acc10.checked_add(d) {
            Option::Some(v) => v,
            Option::None => {
                proof {
                    lemma_numeral_overflow(body, i - start, d as int);
                }
                return Option::None;
            },
        };
        proof {
            assert(body.take(i - start + 1).drop_last() =~= body.take(i - start));
            assert(body.take(i - start + 1).last() == body[i - start]);
            assert(body[i - start] == token_id@[i as int]);
        }
        i = i + 1;
    }
    proof {
        assert(body.take(body.len() as int) =~= body);
        assert(all_digits(body));
    }
    Option::Some(acc)
}

/// Where one more digit overflows a `u64` accumulator, the whole numeral
/// is out of range.
pub proof fn lemma_numeral_overflow(body: Seq<char>, i: int, d: int)
    requires
        0 <= i < body.len(),
        forall|j: int| 0 <= j < i ==> is_digit(#[trigger] body[j]),
        is_digit(body[i]),
        d == digit_val(body[i]),
        digits_value(body.take(i)) * 10 + d > u64::MAX,
    ensures
        !(all_digits(body) && digits_value(body) <= u64::MAX),
{
    if all_digits(body) {
        assert(body.take(i + 1).drop_last() =~= body.take(i));
        assert(body.take(i + 1).last() == body[i]);
        assert(digits_value(body.take(i + 1)) == digits_value(body.take(i)) * 10 + d);
        lemma_digits_value_take_le(body, i + 1, body.len() as int);
        assert(body.take(body.len() as int) =~= body);
    }
}


impl crate::Contract {
    /// An LP-share deposit event as delivered by the AMM: the pool is
    /// named by a token identifier of the form `:<pool id>`. A malformed
    /// identifier aborts the operation; otherwise this is `mft_deposit`
    /// for the named pool.
    pub fn mft_on_transfer(
        &mut self,
        token_id: &str,
        sender_id: u64,
        amount: u128,
        args: StakingArgs,
        now: u64,
    ) -> (r: Result<u128, StakingError>)
        requires
            old(self)@.wf(),
        ensures
            final(self)@.wf(),
            pool_token_spec(token_id@) is None ==> r == Err::<u128, StakingError>(
                StakingError::InvalidReference,
            ) && final(self)@ == old(self)@,
            pool_token_spec(token_id@) is Some ==> ({
                let pool_id = pool_token_spec(token_id@)->0;
                match r {
                    Ok(refund) => refund == 0 && amount > 0 && (args.farm_id as int) < old(
                        self,
                    )@.farm_infos.len() && ({
                        let farm = old(self)@.farm_infos[args.farm_id as int];
                        &&& (farm.farm_type == 1 || farm.farm_type == 2)
                        &&& settle_farm(farm, 1, now) is Some
                        &&& ({
                            let f1 = settle_farm(farm, 1, now)->0;
                            if pool_id == farm.pool_id {
                                &&& lp_deposit_farm(f1, sender_id, amount, args.lock_duration, now)
                                    is Some
                                &&& bumped_pool_staked(old(self)@.lp_stake_info, pool_id, amount)
                                    is Some
                                &&& final(self)@ == (crate::ContractView {
                                    farm_infos: old(self)@.farm_infos.update(
                                        args.farm_id as int,
                                        lp_deposit_farm(
                                            f1,
                                            sender_id,
                                            amount,
                                            args.lock_duration,
                                            now,
                                        )->0,
                                    ),
                                    lp_stake_info: bumped_pool_staked(
                                        old(self)@.lp_stake_info,
                                        pool_id,
                                        amount,
                                    )->0,
                                    ..old(self)@
                                })
                            } else {
                                final(self)@ == (crate::ContractView {
                                    farm_infos: old(self)@.farm_infos.update(
                                        args.farm_id as int,
                                        f1,
                                    ),
                                    ..old(self)@
                                })
                            }
                        })
                    }),
                    Err(e) => final(self)@ == old(self)@ && (e == StakingError::InvalidAmount
                        || e == StakingError::InvalidReference || e == StakingError::Arithmetic),
                }
            }),
            (r is Err && r->Err_0 == StakingError::InvalidAmount) <==> (pool_token_spec(
                token_id@,
            ) is Some && amount == 0),
            r is Err && r->Err_0 == StakingError::InvalidReference ==> (pool_token_spec(token_id@)
                is None || (args.farm_id as int) >= old(self)@.farm_infos.len() || (old(
                self,
            )@.farm_infos[args.farm_id as int].farm_type != 1 && old(self)@.farm_infos[
                args.farm_id as int
            ].farm_type != 2)),
            r is Err && r->Err_0 == StakingError::Arithmetic ==> pool_token_spec(token_id@)
                is Some && (args.farm_id as int) < old(self)@.farm_infos.len() && ({
                let pool_id = pool_token_spec(token_id@)->0;
                let farm = old(self)@.farm_infos[args.farm_id as int];
                ||| settle_farm(farm, 1, now) is None
                ||| (pool_id == farm.pool_id && settle_farm(farm, 1, now) is Some && (
                lp_deposit_farm(
                    settle_farm(farm, 1, now)->0,
                    sender_id,
                    amount,
                    args.lock_duration,
                    now,
                ) is None || bumped_pool_staked(old(self)@.lp_stake_info, pool_id, amount)
                    is None))
            }),
    {
        let pool_id = match parse_pool_token_id(token_id) {
            Option::Some(p) => p,
            Option::None => { return Err(StakingError::InvalidReference) },
        };
        self.mft_deposit(pool_id, sender_id, amount, args, now)
    }
}

} // verus!
