//! The reward accrual engine end to end: deposits, settlement, claims and
//! withdrawals on plain ledger values.
use masterchef_staking::Contract;
use masterchef_staking::deposit::StakingArgs;
use masterchef_staking::errors::StakingError;
use masterchef_staking::stake_info::TransferAction;

const OWNER: u64 = 1;
const ALICE: u64 = 42;
const BOB: u64 = 43;
const TOKEN: u64 = 7;
const POOL: u64 = 9;

/// A dual farm with a wide-open reward window.
fn dual_farm_contract(token_reward_rate: u128) -> Contract {
    let mut c = Contract::new(OWNER);
    c.add_farm(
        OWNER,
        2,
        TOKEN,
        18,
        POOL,
        token_reward_rate,
        token_reward_rate,
        token_reward_rate,
        10_000,
        10_000,
        100,
        1_000,
        0,
        1_000_000_000,
    )
    .unwrap();
    c
}

fn token_args(lock_duration: u64) -> StakingArgs {
    StakingArgs { stake_type: 0, farm_id: 0, lock_duration }
}

#[test]
fn deposit_credits_balance_and_weight() {
    let mut c = dual_farm_contract(1_000_000_000_000);
    c.ft_on_transfer(ALICE, TOKEN, 5, token_args(100), 1000).unwrap();
    let farm = c.get_farm_info(0).unwrap();
    assert_eq!(farm.total_token_amount, 5);
    // pool share: 5 * 1e8 / 5 * 1e20; duration bonus truncates to zero
    assert_eq!(farm.total_token_weight, 10_000_000_000_000_000_000_000_000_000);
    let stakes = c.get_stake_infos_by_ownerid(0, ALICE).unwrap();
    assert_eq!(stakes.len(), 1);
    assert_eq!(stakes[0].token_amount, 5);
    assert_eq!(stakes[0].token_locked, vec![5]);
    assert_eq!(stakes[0].unlocked_at, vec![1100]);
    assert_eq!(stakes[0].staking_duration, vec![100]);
    assert_eq!(stakes[0].claimed_token_at, 1000);
}

#[test]
fn accrual_formula_exact_value() {
    // weight 1e28, rate 1e12, total weight 1e28, two whole-second ticks:
    // floor(1e28 / 1e10) * 1e12 / 1e28 * 2 * 1e10 == 2e12
    let mut c = dual_farm_contract(1_000_000_000_000);
    c.ft_on_transfer(ALICE, TOKEN, 5, token_args(100), 1000).unwrap();
    let pending = c.get_token_claim_amount(0, ALICE, 3000).unwrap();
    assert_eq!(pending, 2_000_000_000_000);
    c.update_claim_amounts(0, 0, 3000).unwrap();
    let stakes = c.get_stake_infos_by_ownerid(0, ALICE).unwrap();
    assert_eq!(stakes[0].reward_token_to_claim, 2_000_000_000_000);
    assert_eq!(stakes[0].claimed_token_at, 3000);
}

#[test]
fn sub_second_elapsed_time_accrues_nothing() {
    let mut c = dual_farm_contract(1_000_000_000_000);
    c.ft_on_transfer(ALICE, TOKEN, 5, token_args(100), 1000).unwrap();
    // 1999 ms is in the same whole-second bucket as 1000 ms
    assert_eq!(c.get_token_claim_amount(0, ALICE, 1999).unwrap(), 0);
    c.update_claim_amounts(0, 0, 1999).unwrap();
    let stakes = c.get_stake_infos_by_ownerid(0, ALICE).unwrap();
    assert_eq!(stakes[0].reward_token_to_claim, 0);
}

#[test]
fn settlement_is_idempotent_at_one_instant() {
    let mut c = dual_farm_contract(1_000_000_000_000);
    c.ft_on_transfer(ALICE, TOKEN, 5, token_args(100), 1000).unwrap();
    c.update_claim_amounts(0, 0, 3000).unwrap();
    let first = c.get_stake_infos_by_ownerid(0, ALICE).unwrap();
    c.update_claim_amounts(0, 0, 3000).unwrap();
    let second = c.get_stake_infos_by_ownerid(0, ALICE).unwrap();
    assert_eq!(first[0].reward_token_to_claim, second[0].reward_token_to_claim);
    assert_eq!(first[0].claimed_token_at, second[0].claimed_token_at);
    let farm = c.get_farm_info(0).unwrap();
    assert_eq!(farm.total_reward_amount, 0);
}

#[test]
fn no_accrual_before_window_opens() {
    let mut c = Contract::new(OWNER);
    c.add_farm(
        OWNER,
        0,
        TOKEN,
        18,
        POOL,
        1_000_000_000_000,
        0,
        0,
        10_000,
        10_000,
        100,
        1_000,
        500_000,
        1_000_000,
    )
    .unwrap();
    c.ft_on_transfer(ALICE, TOKEN, 5, token_args(100), 1000).unwrap();
    // settling before starting_at is a no-op and the pending claim is zero
    assert_eq!(c.get_token_claim_amount(0, ALICE, 400_000).unwrap(), 0);
    c.update_claim_amounts(0, 0, 400_000).unwrap();
    let stakes = c.get_stake_infos_by_ownerid(0, ALICE).unwrap();
    assert_eq!(stakes[0].reward_token_to_claim, 0);
    assert_eq!(stakes[0].claimed_token_at, 1000);
}

#[test]
fn no_accrual_after_window_closes() {
    let mut c = Contract::new(OWNER);
    c.add_farm(
        OWNER,
        0,
        TOKEN,
        18,
        POOL,
        1_000_000_000_000,
        0,
        0,
        10_000,
        10_000,
        100,
        1_000,
        0,
        10_000,
    )
    .unwrap();
    c.ft_on_transfer(ALICE, TOKEN, 5, token_args(100), 1000).unwrap();
    // the first settlement past the window clamps to ending_at: 9 ticks
    c.update_claim_amounts(0, 0, 50_000).unwrap();
    let first = c.get_stake_infos_by_ownerid(0, ALICE).unwrap();
    assert_eq!(first[0].reward_token_to_claim, 9_000_000_000_000);
    assert_eq!(first[0].claimed_token_at, 10_000);
    // later settlements past the window add nothing
    c.update_claim_amounts(0, 0, 80_000).unwrap();
    let second = c.get_stake_infos_by_ownerid(0, ALICE).unwrap();
    assert_eq!(second[0].reward_token_to_claim, 9_000_000_000_000);
    assert_eq!(second[0].claimed_token_at, 10_000);
}

#[test]
fn checkpoints_never_decrease_across_operations() {
    let mut c = dual_farm_contract(1_000_000_000_000);
    c.ft_on_transfer(ALICE, TOKEN, 5, token_args(100), 1000).unwrap();
    let mut last_cp = 0u64;
    for now in [2000u64, 5000, 5000, 9000] {
        c.update_claim_amounts(0, 0, now).unwrap();
        let st = &c.get_stake_infos_by_ownerid(0, ALICE).unwrap()[0];
        assert!(st.claimed_token_at >= last_cp);
        last_cp = st.claimed_token_at;
    }
    c.ft_on_transfer(ALICE, TOKEN, 5, token_args(100), 12_000).unwrap();
    let st = &c.get_stake_infos_by_ownerid(0, ALICE).unwrap()[0];
    assert!(st.claimed_token_at >= last_cp);
}

#[test]
fn two_equal_depositors_accrue_identical_reward() {
    // a large earlier stake makes both later pool-share components truncate
    // to zero, so the equal deposits get exactly equal weights and rewards
    let mut c = dual_farm_contract(1_000_000_000_000_000_000_000_000_000_000);
    c.ft_on_transfer(OWNER, TOKEN, 10_000_000_000_000, token_args(100), 1000).unwrap();
    c.ft_on_transfer(ALICE, TOKEN, 10_000, token_args(100), 1000).unwrap();
    c.ft_on_transfer(BOB, TOKEN, 10_000, token_args(100), 1000).unwrap();
    let a = &c.get_stake_infos_by_ownerid(0, ALICE).unwrap()[0];
    let b = &c.get_stake_infos_by_ownerid(0, BOB).unwrap()[0];
    assert_eq!(a.token_weight, b.token_weight);
    assert!(a.token_weight > 0);
    let pa = c.get_token_claim_amount(0, ALICE, 2000).unwrap();
    let pb = c.get_token_claim_amount(0, BOB, 2000).unwrap();
    assert_eq!(pa, pb);
    assert!(pa > 0);
}

#[test]
fn conservation_of_totals_across_operations() {
    let mut c = dual_farm_contract(1_000_000_000_000);
    c.ft_on_transfer(ALICE, TOKEN, 700, token_args(100), 1000).unwrap();
    c.ft_on_transfer(BOB, TOKEN, 300, token_args(0), 1000).unwrap();
    c.update_claim_amounts(0, 0, 4000).unwrap();
    c.unstake(BOB, 0, 0, 300, 4000).unwrap();
    let farm = c.get_farm_info(0).unwrap();
    let a = &c.get_stake_infos_by_ownerid(0, ALICE).unwrap()[0];
    let b = &c.get_stake_infos_by_ownerid(0, BOB).unwrap()[0];
    assert_eq!(farm.total_token_amount, a.token_amount + b.token_amount);
    assert_eq!(farm.total_token_weight, a.token_weight + b.token_weight);
    assert_eq!(farm.total_reward_amount, a.reward_amount + b.reward_amount);
}

#[test]
fn claim_reward_restakes_claim_as_lock_entry() {
    let mut c = dual_farm_contract(1_000_000_000_000);
    c.ft_on_transfer(ALICE, TOKEN, 5, token_args(100), 1000).unwrap();
    c.claim_reward(ALICE, 0, 0, 3000).unwrap();
    let st = &c.get_stake_infos_by_ownerid(0, ALICE).unwrap()[0];
    assert_eq!(st.reward_token_to_claim, 0);
    assert_eq!(st.reward_amount, 2_000_000_000_000);
    assert_eq!(st.claimed_token_at, 3000);
    // a zero-filled entry for the other classes, the claim locked for the
    // reward vesting bound
    assert_eq!(st.token_locked, vec![5, 0]);
    assert_eq!(st.reward_locked, vec![0, 2_000_000_000_000]);
    assert_eq!(st.unlocked_at, vec![1100, 4000]);
    assert_eq!(st.staking_duration, vec![100, 1_000]);
    let farm = c.get_farm_info(0).unwrap();
    assert_eq!(farm.total_reward_amount, 2_000_000_000_000);
}

#[test]
fn unstake_returns_transfer_action_and_debits() {
    let mut c = dual_farm_contract(1_000_000_000_000);
    c.ft_on_transfer(ALICE, TOKEN, 1000, token_args(100), 1000).unwrap();
    let action = c.unstake(ALICE, 0, 0, 400, 2000).unwrap();
    assert_eq!(
        action,
        Some(TransferAction::Ft { token_id: TOKEN, receiver_id: ALICE, amount: 400 })
    );
    let st = &c.get_stake_infos_by_ownerid(0, ALICE).unwrap()[0];
    assert_eq!(st.token_amount, 600);
    let farm = c.get_farm_info(0).unwrap();
    assert_eq!(farm.total_token_amount, 600);
}

#[test]
fn unstake_rejects_locked_balance() {
    let mut c = dual_farm_contract(1_000_000_000_000);
    c.ft_on_transfer(ALICE, TOKEN, 1000, token_args(10_000), 1000).unwrap();
    // everything is still locked at 2000 ms
    assert_eq!(
        c.unstake(ALICE, 0, 0, 1, 2000),
        Err(StakingError::InsufficientUnlocked)
    );
    // and the ledger did not move
    let st = &c.get_stake_infos_by_ownerid(0, ALICE).unwrap()[0];
    assert_eq!(st.token_amount, 1000);
}

#[test]
fn deposit_of_zero_is_rejected() {
    let mut c = dual_farm_contract(1_000_000_000_000);
    assert_eq!(
        c.ft_on_transfer(ALICE, TOKEN, 0, token_args(100), 1000),
        Err(StakingError::InvalidAmount)
    );
}

#[test]
fn unknown_farm_is_rejected() {
    let mut c = dual_farm_contract(1_000_000_000_000);
    assert_eq!(
        c.update_claim_amounts(3, 0, 1000),
        Err(StakingError::InvalidReference)
    );
    assert_eq!(
        c.ft_on_transfer(ALICE, TOKEN, 5, StakingArgs { stake_type: 0, farm_id: 3, lock_duration: 1 }, 1000),
        Err(StakingError::InvalidReference)
    );
    assert!(c.get_farm_info(3).is_err());
}

#[test]
fn unknown_position_is_rejected() {
    let mut c = dual_farm_contract(1_000_000_000_000);
    assert_eq!(
        c.claim_amount(0, ALICE, 0, 1000),
        Err(StakingError::InvalidReference)
    );
    assert_eq!(
        c.unstake(ALICE, 0, 0, 1, 1000),
        Err(StakingError::InvalidReference)
    );
}

#[test]
fn oversized_token_decimal_fails_arithmetic() {
    let mut c = Contract::new(OWNER);
    c.add_farm(OWNER, 0, TOKEN, 25, POOL, 1, 0, 0, 10_000, 10_000, 100, 1_000, 0, 1_000_000)
        .unwrap();
    // the decimal normalization exponent underflows for decimals over 24
    assert_eq!(
        c.ft_on_transfer(ALICE, TOKEN, 5, token_args(100), 1000),
        Err(StakingError::Arithmetic)
    );
}

#[test]
fn mismatched_token_settles_but_credits_nothing() {
    let mut c = dual_farm_contract(1_000_000_000_000);
    c.ft_on_transfer(ALICE, TOKEN + 1, 5, token_args(100), 1000).unwrap();
    assert!(c.get_stake_infos_by_ownerid(0, ALICE).unwrap().is_empty());
    assert_eq!(c.get_farm_info(0).unwrap().total_token_amount, 0);
}

#[test]
fn lp_deposit_and_pool_counters() {
    let mut c = Contract::new(OWNER);
    c.add_farm(OWNER, 1, TOKEN, 18, POOL, 0, 1_000_000_000_000, 0, 10_000, 10_000, 100, 1_000, 0, 1_000_000)
        .unwrap();
    let args = StakingArgs { stake_type: 0, farm_id: 0, lock_duration: 100 };
    c.mft_on_transfer(":9", ALICE, 50, args, 1000).unwrap();
    let st = &c.get_stake_infos_by_ownerid(0, ALICE).unwrap()[0];
    assert_eq!(st.lp_share_amount, 50);
    assert_eq!(st.lp_share_locked, vec![50]);
    assert_eq!(st.token_locked, vec![0]);
    assert_eq!(c.get_lp_staked(POOL), 50);
    assert_eq!(c.get_farm_info(0).unwrap().total_lp_share_amount, 50);
    // a token deposit is rejected by an LP-only farm
    assert_eq!(
        c.ft_on_transfer(ALICE, TOKEN, 5, token_args(100), 1000),
        Err(StakingError::InvalidReference)
    );
}

#[test]
fn token_counter_accumulates() {
    let mut c = dual_farm_contract(1_000_000_000_000);
    c.ft_on_transfer(ALICE, TOKEN, 5, token_args(100), 1000).unwrap();
    c.ft_on_transfer(BOB, TOKEN, 7, token_args(100), 1000).unwrap();
    assert_eq!(c.get_token_staked(TOKEN), 12);
    assert_eq!(c.get_token_staked(TOKEN + 1), 0);
    assert_eq!(c.get_supply_staking_informations(0).unwrap(), 2);
}

#[test]
fn compounding_reward_class_accrues_per_entry() {
    let mut c = dual_farm_contract(1_000_000_000_000);
    c.ft_on_transfer(ALICE, TOKEN, 5, token_args(100), 1000).unwrap();
    // claim at 3000: 2e12 reward locked until 4000 (vesting bound 1000 ms)
    c.claim_reward(ALICE, 0, 0, 3000).unwrap();
    // settle the compounding class at 5000: the entry accrues from the
    // reward checkpoint (1000) up to its unlock (4000), three whole-second
    // ticks against the snapshot total of 2e12:
    // floor(2e12 / 1e10) * 1e12 / 2e12 * 3 * 1e10 == 3e12
    c.update_claim_amounts(0, 2, 5000).unwrap();
    let st = &c.get_stake_infos_by_ownerid(0, ALICE).unwrap()[0];
    assert_eq!(st.reward_locked, vec![0, 5_000_000_000_000]);
    assert_eq!(st.reward_amount, 5_000_000_000_000);
    assert_eq!(st.claimed_reward_at, 5000);
    assert_eq!(c.get_farm_info(0).unwrap().total_reward_amount, 5_000_000_000_000);
}

#[test]
fn lp_token_identifier_is_parsed_strictly() {
    let mut c = Contract::new(OWNER);
    c.add_farm(OWNER, 1, TOKEN, 18, POOL, 0, 1, 0, 0, 0, 100, 1_000, 0, 1_000_000).unwrap();
    let args = StakingArgs { stake_type: 0, farm_id: 0, lock_duration: 100 };
    // the identifier must be a colon followed by a number
    assert_eq!(
        c.mft_on_transfer("9", ALICE, 50, args, 1000),
        Err(StakingError::InvalidReference)
    );
    assert_eq!(
        c.mft_on_transfer(":", ALICE, 50, args, 1000),
        Err(StakingError::InvalidReference)
    );
    assert_eq!(
        c.mft_on_transfer(":9x", ALICE, 50, args, 1000),
        Err(StakingError::InvalidReference)
    );
    assert_eq!(
        c.mft_on_transfer(":99999999999999999999999", ALICE, 50, args, 1000),
        Err(StakingError::InvalidReference)
    );
    // a leading plus sign and leading zeros are fine
    c.mft_on_transfer(":+009", ALICE, 50, args, 1000).unwrap();
    assert_eq!(c.get_lp_staked(POOL), 50);
    // an identifier naming another pool settles but credits nothing
    c.mft_on_transfer(":8", ALICE, 50, args, 1000).unwrap();
    assert_eq!(c.get_lp_staked(POOL), 50);
    assert_eq!(c.get_lp_staked(8), 0);
}

#[test]
fn residual_weight_accrues_after_full_withdrawal() {
    // a full withdrawal removes only a multiple of 1e16 of weight, so a
    // residue can stay behind; the accrual formula has no balance gate and
    // keeps paying on that residual weight
    let mut c = dual_farm_contract(1_000_000_000_000);
    c.ft_on_transfer(ALICE, TOKEN, 100_000, token_args(100), 1000).unwrap();
    c.unstake(ALICE, 0, 0, 100_000, 2000).unwrap();
    let st = &c.get_stake_infos_by_ownerid(0, ALICE).unwrap()[0];
    assert_eq!(st.token_amount, 0);
    // weight was 1e28 (share) + 1e11 (duration bonus); the withdrawal
    // removed floor(w / 1e16) * 1e16 == 1e28, leaving the bonus residue
    assert_eq!(st.token_weight, 100_000_000_000);
    // the settlement inside the withdrawal paid one tick: 1e12
    assert_eq!(st.reward_token_to_claim, 1_000_000_000_000);
    // one more tick accrues on the residual weight alone:
    // floor(1e11 / 1e10) * 1e12 / 1e11 * 1 * 1e10 == 1e12
    assert_eq!(
        c.get_token_claim_amount(0, ALICE, 3000).unwrap(),
        2_000_000_000_000
    );
}

#[test]
fn unstake_settles_compounding_class_first() {
    let mut c = dual_farm_contract(1_000_000_000_000);
    c.ft_on_transfer(ALICE, TOKEN, 5, token_args(100), 1000).unwrap();
    // claim at 3000 re-stakes 2e12 as a reward entry vesting until 4000
    c.claim_reward(ALICE, 0, 0, 3000).unwrap();
    // a token withdrawal at 5000 settles the compounding class on the way:
    // the entry accrues from the reward checkpoint (1000) to its unlock
    // (4000), three ticks against the snapshot total of 2e12 == 3e12
    c.unstake(ALICE, 0, 0, 5, 5000).unwrap();
    let st = &c.get_stake_infos_by_ownerid(0, ALICE).unwrap()[0];
    assert_eq!(st.token_amount, 0);
    assert_eq!(st.reward_amount, 5_000_000_000_000);
    assert_eq!(st.claimed_reward_at, 5000);
    assert_eq!(c.get_farm_info(0).unwrap().total_reward_amount, 5_000_000_000_000);
}
