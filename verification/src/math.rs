//! Scaled-integer arithmetic used by the accrual, weighting and conversion
//! formulas.
//!
//! Every computation runs on `u128` with checked steps; a failed step aborts
//! the surrounding operation. The spec-level combinators `ck_add`, `ck_sub`,
//! `ck_mul` and `ck_div` mirror the checked operations on `Option<u128>`, so
//! a whole formula can be written once in a contract as a chain and proved
//! equal to the executable pipeline step by step.
use vstd::prelude::*;

use crate::errors::StakingError;

verus! {

/// Scale shifted out of a weight before the token-class accrual product and
/// re-applied afterwards.
pub const ACCRUAL_TOKEN_SCALE: u128 = 10_000_000_000;

/// Scale shifted out of a weight before the LP-class accrual product and
/// re-applied afterwards.
pub const ACCRUAL_LP_SCALE: u128 = 1_000_000_000_000;

/// Scale shifted out of a locked reward entry before the compounding accrual
/// product and re-applied afterwards.
pub const ACCRUAL_REWARD_SCALE: u128 = 10_000_000_000;

/// Scale shifted out of a weight while computing the proportional weight
/// removed by a withdrawal.
pub const UNSTAKE_WEIGHT_SCALE: u128 = 10_000_000_000_000_000;

/// Numerator factor of the pool-share component of a deposit's weight.
pub const POOL_SHARE_NUMERATOR: u128 = 100_000_000;

/// Magnifier applied to the pool-share fraction of a deposit's weight.
pub const POOL_SHARE_MAGNIFIER: u128 = 100_000_000_000_000_000_000;

/// Denominator of a farm's weight-bonus rate: the rate is in basis points
/// of basis points.
pub const WEIGHT_RATE_DENOM: u128 = 10_000;

/// A swap rate is expressed as a multiple of this scale.
pub const SWAP_RATE_SCALE: u128 = 100_000_000;

/// Decimal count that converted amounts are normalized to.
pub const BASE_TOKEN_DECIMALS: u32 = 18;

/// The duration-bonus term of a token deposit's weight is multiplied by
/// `10^(WEIGHT_DECIMAL_NORM_BASE - token_decimal)` so that pools with
/// different token decimal counts contribute comparably.
pub const WEIGHT_DECIMAL_NORM_BASE: u8 = 24;

/// Scale shifted out of a locked conversion entry before the linear-vesting
/// interpolation and re-applied afterwards.
pub const VESTING_SCALE: u128 = 10_000_000_000;

/// Timestamps are stored in milliseconds; accrual ticks are whole seconds.
pub const MS_PER_SEC: u64 = 1000;

/// The whole-second bucket of a millisecond timestamp.
pub open spec fn sec_of(t: u64) -> u64 {
    t / MS_PER_SEC
}

/// Checked addition lifted to `Option<u128>`.
pub open spec fn ck_add(a: Option<u128>, b: u128) -> Option<u128> {
    match a {
        Option::None => Option::None,
        Option::Some(x) => if x + b <= u128::MAX {
            Option::Some((x + b) as u128)
        } else {
            Option::None
        },
    }
}

/// Checked subtraction lifted to `Option<u128>`.
pub open spec fn ck_sub(a: Option<u128>, b: u128) -> Option<u128> {
    match a {
        Option::None => Option::None,
        Option::Some(x) => if x >= b {
            Option::Some((x - b) as u128)
        } else {
            Option::None
        },
    }
}

/// Checked multiplication lifted to `Option<u128>`.
pub open spec fn ck_mul(a: Option<u128>, b: u128) -> Option<u128> {
    match a {
        Option::None => Option::None,
        Option::Some(x) => if x * b <= u128::MAX {
            Option::Some((x * b) as u128)
        } else {
            Option::None
        },
    }
}

/// Checked division lifted to `Option<u128>`; division by zero fails.
pub open spec fn ck_div(a: Option<u128>, b: u128) -> Option<u128> {
    match a {
        Option::None => Option::None,
        Option::Some(x) => if b == 0 {
            Option::None
        } else {
            Option::Some(x / b)
        },
    }
}

/// `10^e`, unbounded.
pub open spec fn pow10(e: nat) -> int
    decreases e,
{
    if e == 0 {
        1
    } else {
        10 * pow10((e - 1) as nat)
    }
}

/// `10^e` is positive.
pub proof fn lemma_pow10_pos(e: nat)
    ensures
        pow10(e) >= 1,
    decreases e,
{
    if e > 0 {
        lemma_pow10_pos((e - 1) as nat);
    }
}

/// `10^e` never shrinks as `e` grows.
pub proof fn lemma_pow10_increases(a: nat, b: nat)
    requires
        a <= b,
    ensures
        pow10(a) <= pow10(b),
        pow10(a) >= 1,
    decreases b,
{
    lemma_pow10_pos(a);
    if a < b {
        lemma_pow10_increases(a, (b - 1) as nat);
        lemma_pow10_pos((b - 1) as nat);
    }
}

/// `10^e` as a `u128`, or `None` where it does not fit.
pub fn pow10_u128(e: u32) -> (r: Option<u128>)
    ensures
        r is Some <==> pow10(e as nat) <= u128::MAX,
        r is Some ==> r->0 == pow10(e as nat),
{
    let mut acc: u128 = 1;
    let mut i: u32 = 0;
    while i < e
        invariant
            i <= e,
            acc == pow10(i as nat),
        decreases e - i,
    {
        acc = match acc.checked_mul(10) {
            Option::Some(v) => v,
            Option::None => {
                proof {
                    lemma_pow10_increases((i + 1) as nat, e as nat);
                }
                return Option::None;
            },
        };
        i = i + 1;
    }
    Option::Some(acc)
}

/// The reward accrued over `dt` whole-second ticks by a weight of `weight`
/// in a pool emitting `rate` per tick over a total weight of
/// `total_weight`, at the given scale: the scale is shifted out of the
/// weight, the share of the emission is taken, and the scale re-applied.
/// All divisions truncate toward zero; `None` marks an overflow or a zero
/// denominator.
pub open spec fn accrual_delta_spec(
    weight: u128,
    scale: u128,
    rate: u128,
    total_weight: u128,
    dt: u128,
) -> Option<u128> {
    ck_mul(
        ck_mul(ck_div(ck_mul(ck_div(Some(weight), scale), rate), total_weight), dt),
        scale,
    )
}

/// Executable form of `accrual_delta_spec`.
pub fn accrual_delta(weight: u128, scale: u128, rate: u128, total_weight: u128, dt: u128) -> (r:
    Result<u128, StakingError>)
    requires
        scale >= 1,
    ensures
        r is Ok ==> accrual_delta_spec(weight, scale, rate, total_weight, dt) == Some(
            r->Ok_0,
        ),
        r is Err ==> accrual_delta_spec(weight, scale, rate, total_weight, dt) is None
            && r->Err_0 == StakingError::Arithmetic,
{
    let q: u128 = weight / scale;
    let m1 = match q.checked_mul(rate) {
        Option::Some(v) => v,
        Option::None => { return Err(StakingError::Arithmetic) },
    };
    let d1 = match m1.checked_div(total_weight) {
        Option::Some(v) => v,
        Option::None => { return Err(StakingError::Arithmetic) },
    };
    let m2 = match d1.checked_mul(dt) {
        Option::Some(v) => v,
        Option::None => { return Err(StakingError::Arithmetic) },
    };
    let m3 = match m2.checked_mul(scale) {
        Option::Some(v) => v,
        Option::None => { return Err(StakingError::Arithmetic) },
    };
    Ok(m3)
}


/// Checked addition of two optional values.
pub open spec fn ck_add_opt(a: Option<u128>, b: Option<u128>) -> Option<u128> {
    match b {
        Option::None => Option::None,
        Option::Some(y) => ck_add(a, y),
    }
}

/// The weight a token deposit adds: a pool-share component (the deposited
/// amount's share of the new pool total, magnified) plus a duration-bonus
/// component (the amount scaled by the farm's bonus rate, the chosen share
/// of the vesting bound, and the decimal normalization
/// `10^(WEIGHT_DECIMAL_NORM_BASE - token_decimal)`). `None` marks a
/// checked-arithmetic failure, a zero divisor, or a decimal count over the
/// normalization base.
pub open spec fn token_deposit_weight_spec(
    amount: u128,
    total_after: u128,
    weight_rate: u16,
    max_vesting: u64,
    lock_duration: u64,
    token_decimal: u8,
) -> Option<u128> {
    if token_decimal > WEIGHT_DECIMAL_NORM_BASE {
        Option::None
    } else {
        ck_add_opt(
            ck_mul(
                ck_div(ck_mul(Some(amount), POOL_SHARE_NUMERATOR), total_after),
                POOL_SHARE_MAGNIFIER,
            ),
            ck_mul(
                ck_mul(
                    ck_div(
                        ck_div(ck_mul(Some(amount), weight_rate as u128), WEIGHT_RATE_DENOM),
                        max_vesting as u128,
                    ),
                    lock_duration as u128,
                ),
                pow10((WEIGHT_DECIMAL_NORM_BASE - token_decimal) as nat) as u128,
            ),
        )
    }
}

/// The weight an LP-share deposit adds: as the token weight, but without
/// decimal normalization.
pub open spec fn lp_deposit_weight_spec(
    amount: u128,
    total_after: u128,
    weight_rate: u16,
    max_vesting: u64,
    lock_duration: u64,
) -> Option<u128> {
    ck_add_opt(
        ck_mul(
            ck_div(ck_mul(Some(amount), POOL_SHARE_NUMERATOR), total_after),
            POOL_SHARE_MAGNIFIER,
        ),
        ck_mul(
            ck_div(
                ck_div(ck_mul(Some(amount), weight_rate as u128), WEIGHT_RATE_DENOM),
                max_vesting as u128,
            ),
            lock_duration as u128,
        ),
    )
}

/// `10^e` for `e` up to the decimal-normalization base fits in a `u128`.
pub proof fn lemma_pow10_small_fits(e: nat)
    requires
        e <= 24,
    ensures
        pow10(e) <= u128::MAX,
        pow10(e) >= 1,
{
    lemma_pow10_increases(e, 24);
    assert(pow10(24) == 1000000000000000000000000) by {
        reveal_with_fuel(pow10, 25);
    }
    lemma_pow10_pos(e);
}

/// Executable form of `token_deposit_weight_spec`.
pub fn token_deposit_weight(
    amount: u128,
    total_after: u128,
    weight_rate: u16,
    max_vesting: u64,
    lock_duration: u64,
    token_decimal: u8,
) -> (r: Result<u128, StakingError>)
    ensures
        r is Ok ==> token_deposit_weight_spec(
            amount,
            total_after,
            weight_rate,
            max_vesting,
            lock_duration,
            token_decimal,
        ) == Some(r->Ok_0),
        r is Err ==> token_deposit_weight_spec(
            amount,
            total_after,
            weight_rate,
            max_vesting,
            lock_duration,
            token_decimal,
        ) is None && r->Err_0 == StakingError::Arithmetic,
{
    if token_decimal > 24 {
        return Err(StakingError::Arithmetic);
    }
    let share = match amount.checked_mul(POOL_SHARE_NUMERATOR) {
        Option::Some(v) => v,
        Option::None => { return Err(StakingError::Arithmetic) },
    };
    let share = match share.checked_div(total_after) {
        Option::Some(v) => v,
        Option::None => { return Err(StakingError::Arithmetic) },
    };
    let share = match share.checked_mul(POOL_SHARE_MAGNIFIER) {
        Option::Some(v) => v,
        Option::None => { return Err(StakingError::Arithmetic) },
    };
    let bonus = match amount.checked_mul(weight_rate as u128) {
        Option::Some(v) => v,
        Option::None => { return Err(StakingError::Arithmetic) },
    };
    let bonus = match bonus.checked_div(WEIGHT_RATE_DENOM) {
        Option::Some(v) => v,
        Option::None => { return Err(StakingError::Arithmetic) },
    };
    let bonus = match bonus.checked_div(max_vesting as u128) {
        Option::Some(v) => v,
        Option::None => { return Err(StakingError::Arithmetic) },
    };
    let bonus = match bonus.checked_mul(lock_duration as u128) {
        Option::Some(v) => v,
        Option::None => { return Err(StakingError::Arithmetic) },
    };
    let norm_exp: u32 = 24u32 - (token_decimal as u32);
    let norm = match pow10_u128(norm_exp) {
        Option::Some(v) => v,
        Option::None => {
            proof {
                lemma_pow10_small_fits(norm_exp as nat);
            }
            return Err(StakingError::Arithmetic);
        },
    };
    let bonus = match bonus.checked_mul(norm) {
        Option::Some(v) => v,
        Option::None => { return Err(StakingError::Arithmetic) },
    };
    match share.checked_add(bonus) {
        Option::Some(v) => Ok(v),
        Option::None => Err(StakingError::Arithmetic),
    }
}

/// Executable form of `lp_deposit_weight_spec`.
pub fn lp_deposit_weight(
    amount: u128,
    total_after: u128,
    weight_rate: u16,
    max_vesting: u64,
    lock_duration: u64,
) -> (r: Result<u128, StakingError>)
    ensures
        r is Ok ==> lp_deposit_weight_spec(
            amount,
            total_after,
            weight_rate,
            max_vesting,
            lock_duration,
        ) == Some(r->Ok_0),
        r is Err ==> lp_deposit_weight_spec(
            amount,
            total_after,
            weight_rate,
            max_vesting,
            lock_duration,
        ) is None && r->Err_0 == StakingError::Arithmetic,
{
    let share = match amount.checked_mul(POOL_SHARE_NUMERATOR) {
        Option::Some(v) => v,
        Option::None => { return Err(StakingError::Arithmetic) },
    };
    let share = match share.checked_div(total_after) {
        Option::Some(v) => v,
        Option::None => { return Err(StakingError::Arithmetic) },
    };
    let share = match share.checked_mul(POOL_SHARE_MAGNIFIER) {
        Option::Some(v) => v,
        Option::None => { return Err(StakingError::Arithmetic) },
    };
    let bonus = match amount.checked_mul(weight_rate as u128) {
        Option::Some(v) => v,
        Option::None => { return Err(StakingError::Arithmetic) },
    };
    let bonus = match bonus.checked_div(WEIGHT_RATE_DENOM) {
        Option::Some(v) => v,
        Option::None => { return Err(StakingError::Arithmetic) },
    };
    let bonus = match bonus.checked_div(max_vesting as u128) {
        Option::Some(v) => v,
        Option::None => { return Err(StakingError::Arithmetic) },
    };
    let bonus = match bonus.checked_mul(lock_duration as u128) {
        Option::Some(v) => v,
        Option::None => { return Err(StakingError::Arithmetic) },
    };
    match share.checked_add(bonus) {
        Option::Some(v) => Ok(v),
        Option::None => Err(StakingError::Arithmetic),
    }
}

/// The fixed-point cross-decimal conversion of the swap module: the amount
/// is shifted to the base decimal count (`BASE_TOKEN_DECIMALS`) by a power
/// of ten, scaled by `SWAP_RATE_SCALE`, and divided by the pool's rate.
/// `None` marks a checked-arithmetic failure, a power of ten out of range,
/// or a zero rate.
pub open spec fn swap_converted_spec(amount: u128, token_decimal: u32, swap_rate: u128) -> Option<
    u128,
> {
    if token_decimal >= BASE_TOKEN_DECIMALS {
        if pow10((token_decimal - BASE_TOKEN_DECIMALS) as nat) <= u128::MAX {
            ck_div(
                ck_mul(
                    ck_div(
                        Some(amount),
                        pow10((token_decimal - BASE_TOKEN_DECIMALS) as nat) as u128,
                    ),
                    SWAP_RATE_SCALE,
                ),
                swap_rate,
            )
        } else {
            Option::None
        }
    } else {
        ck_div(
            ck_mul(
                ck_mul(
                    Some(amount),
                    pow10((BASE_TOKEN_DECIMALS - token_decimal) as nat) as u128,
                ),
                SWAP_RATE_SCALE,
            ),
            swap_rate,
        )
    }
}

/// Executable form of `swap_converted_spec`.
pub fn swap_converted(amount: u128, token_decimal: u32, swap_rate: u128) -> (r: Result<
    u128,
    StakingError,
>)
    ensures
        r is Ok ==> swap_converted_spec(amount, token_decimal, swap_rate) == Some(r->Ok_0),
        r is Err ==> swap_converted_spec(amount, token_decimal, swap_rate) is None && r->Err_0
            == StakingError::Arithmetic,
{
    if token_decimal >= 18 {
        let p = match pow10_u128(token_decimal - 18) {
            Option::Some(v) => v,
            Option::None => { return Err(StakingError::Arithmetic) },
        };
        let v = match amount.checked_div(p) {
            Option::Some(v) => v,
            Option::None => { return Err(StakingError::Arithmetic) },
        };
        let v = match v.checked_mul(SWAP_RATE_SCALE) {
            Option::Some(v) => v,
            Option::None => { return Err(StakingError::Arithmetic) },
        };
        match v.checked_div(swap_rate) {
            Option::Some(v) => Ok(v),
            Option::None => Err(StakingError::Arithmetic),
        }
    } else {
        let p = match pow10_u128(18 - token_decimal) {
            Option::Some(v) => v,
            Option::None => {
                proof {
                    lemma_pow10_small_fits((18 - token_decimal) as nat);
                }
                return Err(StakingError::Arithmetic);
            },
        };
        let v = match amount.checked_mul(p) {
            Option::Some(v) => v,
            Option::None => { return Err(StakingError::Arithmetic) },
        };
        let v = match v.checked_mul(SWAP_RATE_SCALE) {
            Option::Some(v) => v,
            Option::None => { return Err(StakingError::Arithmetic) },
        };
        match v.checked_div(swap_rate) {
            Option::Some(v) => Ok(v),
            Option::None => Err(StakingError::Arithmetic),
        }
    }
}


/// Checked multiplication by an optional factor.
pub open spec fn ck_mul_opt(a: Option<u128>, b: Option<u128>) -> Option<u128> {
    match b {
        Option::None => Option::None,
        Option::Some(y) => ck_mul(a, y),
    }
}

/// Checked division by an optional divisor.
pub open spec fn ck_div_opt(a: Option<u128>, b: Option<u128>) -> Option<u128> {
    match b {
        Option::None => Option::None,
        Option::Some(y) => ck_div(a, y),
    }
}

} // verus!
