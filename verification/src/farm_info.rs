//! The per-farm aggregate ledger.
//!
//! A farm owns the pool-level state of one reward window: which asset
//! classes it accepts, the emission rates, the weight-bonus rates, the
//! vesting bounds, the `[starting_at, ending_at)` reward window, aggregate
//! totals per asset class, and every account's stake position. The aggregate
//! totals are, at every settled checkpoint, exactly the sums of the
//! positions' balances and weights.
use vstd::prelude::*;

use crate::errors::StakingError;
use crate::stake_info::StakeInfo;
use crate::stake_info::StakeInfoView;

verus! {

/// Spec-level image of a `FarmInfo`.
#[verifier::ext_equal]
pub ghost struct FarmInfoView {
    pub farm_id: u16,
    pub farm_type: u8,
    pub token_id: u64,
    pub token_decimal: u8,
    pub pool_id: u64,
    pub total_token_amount: u128,
    pub total_token_weight: u128,
    pub total_lp_share_amount: u128,
    pub total_lp_share_weight: u128,
    pub total_reward_amount: u128,
    pub total_reward_weight: u128,
    pub token_reward_rate: u128,
    pub pool_reward_rate: u128,
    pub reward_reward_rate: u128,
    pub token_weight_rate: u16,
    pub pool_weight_rate: u16,
    pub max_token_vesting_duration: u64,
    pub max_reward_vesting_duration: u64,
    pub starting_at: u64,
    pub ending_at: u64,
    pub stake_infos: Seq<StakeInfoView>,
}

/// One farm: parameters, aggregate totals, and all stake positions.
pub struct FarmInfo {
    pub farm_id: u16,
    pub farm_type: u8,
    pub token_id: u64,
    pub token_decimal: u8,
    pub pool_id: u64,
    pub total_token_amount: u128,
    pub total_token_weight: u128,
    pub total_lp_share_amount: u128,
    pub total_lp_share_weight: u128,
    pub total_reward_amount: u128,
    pub total_reward_weight: u128,
    pub token_reward_rate: u128,
    pub pool_reward_rate: u128,
    pub reward_reward_rate: u128,
    pub token_weight_rate: u16,
    pub pool_weight_rate: u16,
    pub max_token_vesting_duration: u64,
    pub max_reward_vesting_duration: u64,
    pub starting_at: u64,
    pub ending_at: u64,
    pub stake_infos: Vec<StakeInfo>,
}

impl View for FarmInfo {
    type V = FarmInfoView;

    open spec fn view(&self) -> FarmInfoView {
        FarmInfoView {
            farm_id: self.farm_id,
            farm_type: self.farm_type,
            token_id: self.token_id,
            token_decimal: self.token_decimal,
            pool_id: self.pool_id,
            total_token_amount: self.total_token_amount,
            total_token_weight: self.total_token_weight,
            total_lp_share_amount: self.total_lp_share_amount,
            total_lp_share_weight: self.total_lp_share_weight,
            total_reward_amount: self.total_reward_amount,
            total_reward_weight: self.total_reward_weight,
            token_reward_rate: self.token_reward_rate,
            pool_reward_rate: self.pool_reward_rate,
            reward_reward_rate: self.reward_reward_rate,
            token_weight_rate: self.token_weight_rate,
            pool_weight_rate: self.pool_weight_rate,
            max_token_vesting_duration: self.max_token_vesting_duration,
            max_reward_vesting_duration: self.max_reward_vesting_duration,
            starting_at: self.starting_at,
            ending_at: self.ending_at,
            stake_infos: Seq::new(self.stake_infos@.len(), |i: int| self.stake_infos@[i]@),
        }
    }
}

/// The sum of `f` over a sequence of positions.
pub open spec fn sum_by(s: Seq<StakeInfoView>, f: spec_fn(StakeInfoView) -> int) -> int
    decreases s.len(),
{
    if s.len() == 0 {
        0
    } else {
        sum_by(s.drop_last(), f) + f(s.last())
    }
}

/// Updating one position changes the sum by the difference at that index.
pub proof fn lemma_sum_by_update(
    s: Seq<StakeInfoView>,
    f: spec_fn(StakeInfoView) -> int,
    i: int,
    v: StakeInfoView,
)
    requires
        0 <= i < s.len(),
    ensures
        sum_by(s.update(i, v), f) == sum_by(s, f) - f(s[i]) + f(v),
    decreases s.len(),
{
    if i == s.len() - 1 {
        assert(s.update(i, v).drop_last() =~= s.drop_last());
    } else {
        assert(s.update(i, v).drop_last() =~= s.drop_last().update(i, v));
        lemma_sum_by_update(s.drop_last(), f, i, v);
    }
}

/// Appending a position adds its value to the sum.
pub proof fn lemma_sum_by_push(s: Seq<StakeInfoView>, f: spec_fn(StakeInfoView) -> int, v: StakeInfoView)
    ensures
        sum_by(s.push(v), f) == sum_by(s, f) + f(v),
{
    assert(s.push(v).drop_last() =~= s);
    assert(s.push(v).last() == v);
}

impl FarmInfoView {
    /// Every position is well-formed and owners are unique.
    pub open spec fn wf(self) -> bool {
        &&& forall|i: int|
            0 <= i < self.stake_infos.len() ==> (#[trigger] self.stake_infos[i]).wf()
        &&& forall|i: int, j: int|
            0 <= i < j < self.stake_infos.len() ==> self.stake_infos[i].owner_id
                != self.stake_infos[j].owner_id
    }

    /// Conservation: each aggregate total of the farm is exactly the sum of
    /// the corresponding field over all stake positions.
    pub open spec fn consistent(self) -> bool {
        &&& self.total_token_amount == sum_by(
            self.stake_infos,
            |st: StakeInfoView| st.token_amount as int,
        )
        &&& self.total_token_weight == sum_by(
            self.stake_infos,
            |st: StakeInfoView| st.token_weight as int,
        )
        &&& self.total_lp_share_amount == sum_by(
            self.stake_infos,
            |st: StakeInfoView| st.lp_share_amount as int,
        )
        &&& self.total_lp_share_weight == sum_by(
            self.stake_infos,
            |st: StakeInfoView| st.lp_share_weight as int,
        )
        &&& self.total_reward_amount == sum_by(
            self.stake_infos,
            |st: StakeInfoView| st.reward_amount as int,
        )
    }
}

/// The view of a fresh farm: the given parameters, zero totals, no
/// positions.
pub open spec fn new_farm_view(
    farm_id: u16,
    farm_type: u8,
    token_id: u64,
    token_decimal: u8,
    pool_id: u64,
    token_reward_rate: u128,
    pool_reward_rate: u128,
    reward_reward_rate: u128,
    token_weight_rate: u16,
    pool_weight_rate: u16,
    max_token_vesting_duration: u64,
    max_reward_vesting_duration: u64,
    starting_at: u64,
    ending_at: u64,
) -> FarmInfoView {
    FarmInfoView {
        farm_id,
        farm_type,
        token_id,
        token_decimal,
        pool_id,
        total_token_amount: 0,
        total_token_weight: 0,
        total_lp_share_amount: 0,
        total_lp_share_weight: 0,
        total_reward_amount: 0,
        total_reward_weight: 0,
        token_reward_rate,
        pool_reward_rate,
        reward_reward_rate,
        token_weight_rate,
        pool_weight_rate,
        max_token_vesting_duration,
        max_reward_vesting_duration,
        starting_at,
        ending_at,
        stake_infos: Seq::empty(),
    }
}

impl FarmInfo {
    /// A fresh farm: the given parameters, zero totals, no positions.
    pub fn new(
        farm_id: u16,
        farm_type: u8,
        token_id: u64,
        token_decimal: u8,
        pool_id: u64,
        token_reward_rate: u128,
        pool_reward_rate: u128,
        reward_reward_rate: u128,
        token_weight_rate: u16,
        pool_weight_rate: u16,
        max_token_vesting_duration: u64,
        max_reward_vesting_duration: u64,
        starting_at: u64,
        ending_at: u64,
    ) -> (r: FarmInfo)
        ensures
            r@ == new_farm_view(
                farm_id,
                farm_type,
                token_id,
                token_decimal,
                pool_id,
                token_reward_rate,
                pool_reward_rate,
                reward_reward_rate,
                token_weight_rate,
                pool_weight_rate,
                max_token_vesting_duration,
                max_reward_vesting_duration,
                starting_at,
                ending_at,
            ),
            r@.wf(),
            r@.consistent(),
    {
        let r = FarmInfo {
            farm_id,
            farm_type,
            token_id,
            token_decimal,
            pool_id,
            total_token_amount: 0,
            total_token_weight: 0,
            total_lp_share_amount: 0,
            total_lp_share_weight: 0,
            total_reward_amount: 0,
            total_reward_weight: 0,
            token_reward_rate,
            pool_reward_rate,
            reward_reward_rate,
            token_weight_rate,
            pool_weight_rate,
            max_token_vesting_duration,
            max_reward_vesting_duration,
            starting_at,
            ending_at,
            stake_infos: Vec::new(),
        };
        proof {
            assert(r@.stake_infos =~= Seq::<StakeInfoView>::empty());
            assert(r@ =~= new_farm_view(
                farm_id,
                farm_type,
                token_id,
                token_decimal,
                pool_id,
                token_reward_rate,
                pool_reward_rate,
                reward_reward_rate,
                token_weight_rate,
                pool_weight_rate,
                max_token_vesting_duration,
                max_reward_vesting_duration,
                starting_at,
                ending_at,
            ));
        }
        r
    }

    /// The index of `account_id`'s position in this farm, if it has one.
    pub fn find_stake(&self, account_id: u64) -> (r: Option<usize>)
        ensures
            match r {
                Option::Some(i) => i < self@.stake_infos.len() && self@.stake_infos[
                    i as int
                ].owner_id == account_id,
                Option::None => forall|i: int|
                    0 <= i < self@.stake_infos.len() ==> (#[trigger] self@.stake_infos[
                        i
                    ]).owner_id != account_id,
            },
    {
        let mut i: usize = 0;
        while i < self.stake_infos.len()
            invariant
                i <= self.stake_infos.len(),
                forall|j: int|
                    0 <= j < i ==> (#[trigger] self@.stake_infos[j]).owner_id != account_id,
            decreases self.stake_infos.len() - i,
        {
            if self.stake_infos[i].owner_id == account_id {
                return Option::Some(i);
            }
            i = i + 1;
        }
        Option::None
    }
}

/// An exact copy of a farm, positions included.
pub fn copy_farm_info(farm: &FarmInfo) -> (r: FarmInfo)
    ensures
        r@ == farm@,
{
    let mut stakes: Vec<StakeInfo> = Vec::new();
    let mut i: usize = 0;
    while i < farm.stake_infos.len()
        invariant
            i <= farm.stake_infos.len(),
            stakes@.len() == i,
            forall|j: int| 0 <= j < i ==> (#[trigger] stakes@[j])@ == farm@.stake_infos[j],
        decreases farm.stake_infos.len() - i,
    {
        stakes.push(crate::stake_info::copy_stake_info(&farm.stake_infos[i]));
        i = i + 1;
    }
    let r = FarmInfo {
        farm_id: farm.farm_id,
        farm_type: farm.farm_type,
        token_id: farm.token_id,
        token_decimal: farm.token_decimal,
        pool_id: farm.pool_id,
        total_token_amount: farm.total_token_amount,
        total_token_weight: farm.total_token_weight,
        total_lp_share_amount: farm.total_lp_share_amount,
        total_lp_share_weight: farm.total_lp_share_weight,
        total_reward_amount: farm.total_reward_amount,
        total_reward_weight: farm.total_reward_weight,
        token_reward_rate: farm.token_reward_rate,
        pool_reward_rate: farm.pool_reward_rate,
        reward_reward_rate: farm.reward_reward_rate,
        token_weight_rate: farm.token_weight_rate,
        pool_weight_rate: farm.pool_weight_rate,
        max_token_vesting_duration: farm.max_token_vesting_duration,
        max_reward_vesting_duration: farm.max_reward_vesting_duration,
        starting_at: farm.starting_at,
        ending_at: farm.ending_at,
        stake_infos: stakes,
    };
    proof {
        assert(r@.stake_infos =~= farm@.stake_infos);
        assert(r@ =~= farm@);
    }
    r
}

/// Editable draft of a farm's parameters, staged until every admin confirms.
#[derive(Clone, Copy, PartialEq, Eq, Structural)]
pub struct EditingFarmInfo {
    pub farm_id: u16,
    pub farm_type: u8,
    pub token_id: u64,
    pub token_decimal: u8,
    pub pool_id: u64,
    pub token_reward_rate: u128,
    pub pool_reward_rate: u128,
    pub reward_reward_rate: u128,
    pub token_weight_rate: u16,
    pub pool_weight_rate: u16,
    pub max_token_vesting_duration: u64,
    pub max_reward_vesting_duration: u64,
    pub starting_at: u64,
    pub ending_at: u64,
}


/// Whether the half-open reward windows of an existing farm (`a`) and a
/// proposed farm (`b`) overlap, by the symmetric four-way endpoint test.
pub open spec fn windows_overlap(a_start: u64, a_end: u64, b_start: u64, b_end: u64) -> bool {
    ||| a_start < b_start && b_start < a_end
    ||| a_start < b_end && b_end < a_end
    ||| b_start < a_start && a_start < b_end
    ||| b_start < a_end && a_end < b_end
}

/// Whether an existing farm blocks a proposed farm: same farm type, same
/// asset key (token for token farms, pool for LP farms, both for dual
/// farms) and overlapping reward windows.
pub open spec fn farm_conflicts_with(
    elem: FarmInfoView,
    farm_type: u8,
    token_id: u64,
    pool_id: u64,
    starting_at: u64,
    ending_at: u64,
) -> bool {
    if farm_type == 0 {
        windows_overlap(elem.starting_at, elem.ending_at, starting_at, ending_at)
            && elem.token_id == token_id && elem.farm_type == farm_type
    } else if farm_type == 1 {
        windows_overlap(elem.starting_at, elem.ending_at, starting_at, ending_at)
            && elem.pool_id == pool_id && elem.farm_type == farm_type
    } else if farm_type == 2 {
        windows_overlap(elem.starting_at, elem.ending_at, starting_at, ending_at)
            && elem.token_id == token_id && elem.pool_id == pool_id && elem.farm_type == farm_type
    } else {
        false
    }
}

/// Whether any existing farm blocks the proposed farm.
pub open spec fn any_farm_conflicts(
    farms: Seq<FarmInfoView>,
    farm_type: u8,
    token_id: u64,
    pool_id: u64,
    starting_at: u64,
    ending_at: u64,
) -> bool {
    exists|i: int|
        0 <= i < farms.len() && farm_conflicts_with(
            #[trigger] farms[i],
            farm_type,
            token_id,
            pool_id,
            starting_at,
            ending_at,
        )
}

/// The farm a draft materializes into, numbered after the existing farms.
pub open spec fn farm_from_draft(next_id: u16, d: EditingFarmInfo) -> FarmInfoView {
    new_farm_view(
        next_id,
        d.farm_type,
        d.token_id,
        d.token_decimal,
        d.pool_id,
        d.token_reward_rate,
        d.pool_reward_rate,
        d.reward_reward_rate,
        d.token_weight_rate,
        d.pool_weight_rate,
        d.max_token_vesting_duration,
        d.max_reward_vesting_duration,
        d.starting_at,
        d.ending_at,
    )
}

impl crate::Contract {
    /// Append a farm with the given parameters directly, numbered after
    /// the existing farms. Only the owner may call this; no window
    /// validation is applied.
    pub fn add_farm(
        &mut self,
        caller: u64,
        farm_type: u8,
        token_id: u64,
        token_decimal: u8,
        pool_id: u64,
        token_reward_rate: u128,
        pool_reward_rate: u128,
        reward_reward_rate: u128,
        token_weight_rate: u16,
        pool_weight_rate: u16,
        max_token_vesting_duration: u64,
        max_reward_vesting_duration: u64,
        starting_at: u64,
        ending_at: u64,
    ) -> (r: Result<(), StakingError>)
        requires
            old(self)@.wf(),
        ensures
            final(self)@.wf(),
            match r {
                Ok(()) => caller == old(self)@.owner_id && final(self)@ == (crate::ContractView {
                    farm_infos: old(self)@.farm_infos.push(
                        new_farm_view(
                            #[verifier::truncate] (old(self)@.farm_infos.len() as u16),
                            farm_type,
                            token_id,
                            token_decimal,
                            pool_id,
                            token_reward_rate,
                            pool_reward_rate,
                            reward_reward_rate,
                            token_weight_rate,
                            pool_weight_rate,
                            max_token_vesting_duration,
                            max_reward_vesting_duration,
                            starting_at,
                            ending_at,
                        ),
                    ),
                    ..old(self)@
                }),
                Err(e) => final(self)@ == old(self)@ && e == StakingError::Unauthorized && caller
                    != old(self)@.owner_id,
            },
    {
        if caller != self.owner_id {
            return Err(StakingError::Unauthorized);
        }
        let next_id: u16 = #[verifier::truncate] (self.farm_infos.len() as u16);
        let farm = FarmInfo::new(
            next_id,
            farm_type,
            token_id,
            token_decimal,
            pool_id,
            token_reward_rate,
            pool_reward_rate,
            reward_reward_rate,
            token_weight_rate,
            pool_weight_rate,
            max_token_vesting_duration,
            max_reward_vesting_duration,
            starting_at,
            ending_at,
        );
        let ghost pre = self@;
        let ghost gfarm = farm@;
        self.farm_infos.push(farm);
        proof {
            assert(self@ =~= (crate::ContractView {
                farm_infos: pre.farm_infos.push(gfarm),
                ..pre
            }));
            assert forall|q: int| 0 <= q < self@.farm_infos.len() implies (
            #[trigger] self@.farm_infos[q]).wf() by {
                if q < pre.farm_infos.len() {
                    assert(self@.farm_infos[q] == pre.farm_infos[q]);
                } else {
                    assert(self@.farm_infos[q] == gfarm);
                }
            }
        }
        Ok(())
    }

    /// The pending farm draft.
    pub fn get_editing_farm_info(&self) -> (r: EditingFarmInfo)
        ensures
            r == self@.editing_new_farm,
    {
        self.editing_new_farm
    }

    /// Stage a farm draft. Only an admin may call this, and only while no
    /// existing farm of the same type and asset key has an overlapping
    /// reward window. The draft replaces any pending one and the caller's
    /// confirmation is recorded first; if the caller is the only admin,
    /// the draft is applied at once: the farm is appended and the draft
    /// reset.
    pub fn save_editing_farm_info(
        &mut self,
        caller: u64,
        farm_type: u8,
        token_id: u64,
        token_decimal: u8,
        pool_id: u64,
        token_reward_rate: u128,
        pool_reward_rate: u128,
        reward_reward_rate: u128,
        token_weight_rate: u16,
        pool_weight_rate: u16,
        max_token_vesting_duration: u64,
        max_reward_vesting_duration: u64,
        starting_at: u64,
        ending_at: u64,
    ) -> (r: Result<(), StakingError>)
        requires
            old(self)@.wf(),
        ensures
            final(self)@.wf(),
            match r {
                Ok(()) => old(self)@.admin_ids.contains(caller) && !any_farm_conflicts(
                    old(self)@.farm_infos,
                    farm_type,
                    token_id,
                    pool_id,
                    starting_at,
                    ending_at,
                ) && ({
                    let draft = EditingFarmInfo {
                        farm_id: 1,
                        farm_type,
                        token_id,
                        token_decimal,
                        pool_id,
                        token_reward_rate,
                        pool_reward_rate,
                        reward_reward_rate,
                        token_weight_rate,
                        pool_weight_rate,
                        max_token_vesting_duration,
                        max_reward_vesting_duration,
                        starting_at,
                        ending_at,
                    };
                    if old(self)@.admin_ids.len() == 1 {
                        final(self)@ == (crate::ContractView {
                            farm_infos: old(self)@.farm_infos.push(
                                farm_from_draft(
                                    #[verifier::truncate] (old(self)@.farm_infos.len() as u16),
                                    draft,
                                ),
                            ),
                            editing_new_farm: crate::blank_editing_farm(),
                            confirmed_admins_for_new_farm: Seq::empty(),
                            ..old(self)@
                        })
                    } else {
                        final(self)@ == (crate::ContractView {
                            editing_new_farm: draft,
                            confirmed_admins_for_new_farm: seq![caller],
                            ..old(self)@
                        })
                    }
                }),
                Err(e) => final(self)@ == old(self)@ && ((e == StakingError::Unauthorized && !old(
                    self,
                )@.admin_ids.contains(caller)) || (e == StakingError::ScheduleConflict && old(
                    self,
                )@.admin_ids.contains(caller) && any_farm_conflicts(
                    old(self)@.farm_infos,
                    farm_type,
                    token_id,
                    pool_id,
                    starting_at,
                    ending_at,
                ))),
            },
    {
        if !self.is_admin(caller) {
            return Err(StakingError::Unauthorized);
        }
        let mut i: usize = 0;
        while i < self.farm_infos.len()
            invariant
                i <= self.farm_infos.len(),
                forall|j: int|
                    0 <= j < i ==> !farm_conflicts_with(
                        #[trigger] self@.farm_infos[j],
                        farm_type,
                        token_id,
                        pool_id,
                        starting_at,
                        ending_at,
                    ),
            decreases self.farm_infos.len() - i,
        {
            let elem = &self.farm_infos[i];
            if farm_type == 0 {
                if (elem.starting_at < starting_at && starting_at < elem.ending_at
                    || elem.starting_at < ending_at && ending_at < elem.ending_at || starting_at
                    < elem.starting_at && elem.starting_at < ending_at || starting_at
                    < elem.ending_at && elem.ending_at < ending_at) && elem.token_id == token_id
                    && elem.farm_type == farm_type {
                    proof {
                        assert(farm_conflicts_with(
                            self@.farm_infos[i as int],
                            farm_type,
                            token_id,
                            pool_id,
                            starting_at,
                            ending_at,
                        ));
                    }
                    return Err(StakingError::ScheduleConflict);
                }
            } else if farm_type == 1 {
                if (elem.starting_at < starting_at && starting_at < elem.ending_at
                    || elem.starting_at < ending_at && ending_at < elem.ending_at || starting_at
                    < elem.starting_at && elem.starting_at < ending_at || starting_at
                    < elem.ending_at && elem.ending_at < ending_at) && elem.pool_id == pool_id
                    && elem.farm_type == farm_type {
                    proof {
                        assert(farm_conflicts_with(
                            self@.farm_infos[i as int],
                            farm_type,
                            token_id,
                            pool_id,
                            starting_at,
                            ending_at,
                        ));
                    }
                    return Err(StakingError::ScheduleConflict);
                }
            } else if farm_type == 2 {
                if (elem.starting_at < starting_at && starting_at < elem.ending_at
                    || elem.starting_at < ending_at && ending_at < elem.ending_at || starting_at
                    < elem.starting_at && elem.starting_at < ending_at || starting_at
                    < elem.ending_at && elem.ending_at < ending_at) && elem.token_id == token_id
                    && elem.pool_id == pool_id && elem.farm_type == farm_type {
                    proof {
                        assert(farm_conflicts_with(
                            self@.farm_infos[i as int],
                            farm_type,
                            token_id,
                            pool_id,
                            starting_at,
                            ending_at,
                        ));
                    }
                    return Err(StakingError::ScheduleConflict);
                }
            }
            i = i + 1;
        }
        let draft = EditingFarmInfo {
            farm_id: 1,
            farm_type,
            token_id,
            token_decimal,
            pool_id,
            token_reward_rate,
            pool_reward_rate,
            reward_reward_rate,
            token_weight_rate,
            pool_weight_rate,
            max_token_vesting_duration,
            max_reward_vesting_duration,
            starting_at,
            ending_at,
        };
        self.editing_new_farm = draft;
        self.confirmed_admins_for_new_farm = Vec::new();
        self.confirmed_admins_for_new_farm.push(caller);
        if self.confirmed_admins_for_new_farm.len() == self.admin_ids.len() {
            let next_id: u16 = #[verifier::truncate] (self.farm_infos.len() as u16);
            let farm = FarmInfo::new(
                next_id,
                self.editing_new_farm.farm_type,
                self.editing_new_farm.token_id,
                self.editing_new_farm.token_decimal,
                self.editing_new_farm.pool_id,
                self.editing_new_farm.token_reward_rate,
                self.editing_new_farm.pool_reward_rate,
                self.editing_new_farm.reward_reward_rate,
                self.editing_new_farm.token_weight_rate,
                self.editing_new_farm.pool_weight_rate,
                self.editing_new_farm.max_token_vesting_duration,
                self.editing_new_farm.max_reward_vesting_duration,
                self.editing_new_farm.starting_at,
                self.editing_new_farm.ending_at,
            );
            let ghost gfarm = farm@;
            let ghost pre0 = old(self)@;
            self.farm_infos.push(farm);
            self.confirmed_admins_for_new_farm = Vec::new();
            self.editing_new_farm = crate::make_blank_editing_farm();
            proof {
                assert(self@ =~= (crate::ContractView {
                    farm_infos: pre0.farm_infos.push(gfarm),
                    editing_new_farm: crate::blank_editing_farm(),
                    confirmed_admins_for_new_farm: Seq::empty(),
                    ..pre0
                }));
                assert forall|q: int| 0 <= q < self@.farm_infos.len() implies (
                #[trigger] self@.farm_infos[q]).wf() by {
                    if q < pre0.farm_infos.len() {
                        assert(self@.farm_infos[q] == pre0.farm_infos[q]);
                    } else {
                        assert(self@.farm_infos[q] == gfarm);
                    }
                }
            }
        } else {
            proof {
                assert(self@ =~= (crate::ContractView {
                    editing_new_farm: draft,
                    confirmed_admins_for_new_farm: seq![caller],
                    ..old(self)@
                }));
            }
        }
        Ok(())
    }

    /// Record the caller's confirmation of the pending farm draft. Only an
    /// admin may call this. When every admin has confirmed, the draft is
    /// applied: the farm is appended, the confirmations cleared, and the
    /// draft reset.
    pub fn confirm_new_farm(&mut self, caller: u64) -> (r: Result<(), StakingError>)
        requires
            old(self)@.wf(),
        ensures
            final(self)@.wf(),
            match r {
                Ok(()) => old(self)@.admin_ids.contains(caller) && ({
                    let confirmed = if old(self)@.confirmed_admins_for_new_farm.contains(caller) {
                        old(self)@.confirmed_admins_for_new_farm
                    } else {
                        old(self)@.confirmed_admins_for_new_farm.push(caller)
                    };
                    if confirmed.len() == old(self)@.admin_ids.len() {
                        final(self)@ == (crate::ContractView {
                            farm_infos: old(self)@.farm_infos.push(
                                farm_from_draft(
                                    #[verifier::truncate] (old(self)@.farm_infos.len() as u16),
                                    old(self)@.editing_new_farm,
                                ),
                            ),
                            editing_new_farm: crate::blank_editing_farm(),
                            confirmed_admins_for_new_farm: Seq::empty(),
                            ..old(self)@
                        })
                    } else {
                        final(self)@ == (crate::ContractView {
                            confirmed_admins_for_new_farm: confirmed,
                            ..old(self)@
                        })
                    }
                }),
                Err(e) => final(self)@ == old(self)@ && e == StakingError::Unauthorized && !old(
                    self,
                )@.admin_ids.contains(caller),
            },
    {
        if !self.is_admin(caller) {
            return Err(StakingError::Unauthorized);
        }
        let ghost pre = self@;
        match crate::find_u64(&self.confirmed_admins_for_new_farm, caller) {
            Option::Some(_) => {
                proof {
                    assert(pre.confirmed_admins_for_new_farm.contains(caller));
                }
            },
            Option::None => {
                proof {
                    assert(!pre.confirmed_admins_for_new_farm.contains(caller));
                }
                self.confirmed_admins_for_new_farm.push(caller);
            },
        }
        if self.confirmed_admins_for_new_farm.len() == self.admin_ids.len() {
            let next_id: u16 = #[verifier::truncate] (self.farm_infos.len() as u16);
            let farm = FarmInfo::new(
                next_id,
                self.editing_new_farm.farm_type,
                self.editing_new_farm.token_id,
                self.editing_new_farm.token_decimal,
                self.editing_new_farm.pool_id,
                self.editing_new_farm.token_reward_rate,
                self.editing_new_farm.pool_reward_rate,
                self.editing_new_farm.reward_reward_rate,
                self.editing_new_farm.token_weight_rate,
                self.editing_new_farm.pool_weight_rate,
                self.editing_new_farm.max_token_vesting_duration,
                self.editing_new_farm.max_reward_vesting_duration,
                self.editing_new_farm.starting_at,
                self.editing_new_farm.ending_at,
            );
            let ghost gfarm = farm@;
            self.farm_infos.push(farm);
            self.confirmed_admins_for_new_farm = Vec::new();
            self.editing_new_farm = crate::make_blank_editing_farm();
            proof {
                assert(self@ =~= (crate::ContractView {
                    farm_infos: pre.farm_infos.push(gfarm),
                    editing_new_farm: crate::blank_editing_farm(),
                    confirmed_admins_for_new_farm: Seq::empty(),
                    ..pre
                }));
                assert forall|q: int| 0 <= q < self@.farm_infos.len() implies (
                #[trigger] self@.farm_infos[q]).wf() by {
                    if q < pre.farm_infos.len() {
                        assert(self@.farm_infos[q] == pre.farm_infos[q]);
                    } else {
                        assert(self@.farm_infos[q] == gfarm);
                    }
                }
            }
        } else {
            proof {
                if pre.confirmed_admins_for_new_farm.contains(caller) {
                    assert(self@ =~= (crate::ContractView {
                        confirmed_admins_for_new_farm: pre.confirmed_admins_for_new_farm,
                        ..pre
                    }));
                } else {
                    assert(self@ =~= (crate::ContractView {
                        confirmed_admins_for_new_farm: pre.confirmed_admins_for_new_farm.push(
                            caller,
                        ),
                        ..pre
                    }));
                }
            }
        }
        Ok(())
    }
}

} // verus!
