//! Lock-schedule behaviour over time, and the conversion module: fixed-rate
//! swaps and linear vesting.
use masterchef_staking::Contract;
use masterchef_staking::deposit::StakingArgs;
use masterchef_staking::errors::StakingError;
use masterchef_staking::stake_info::TransferAction;

const OWNER: u64 = 1;
const ALICE: u64 = 42;
const TOKEN: u64 = 7;
const SWAP_TOKEN: u64 = 5;
const POOL: u64 = 9;
const BASE_TOKEN: u64 = 0;

fn farm_contract() -> Contract {
    let mut c = Contract::new(OWNER);
    c.add_farm(
        OWNER,
        2,
        TOKEN,
        18,
        POOL,
        1_000_000_000_000,
        1_000_000_000_000,
        1_000_000_000_000,
        10_000,
        10_000,
        100,
        1_000,
        0,
        1_000_000_000,
    )
    .unwrap();
    c
}

fn token_args(lock_duration: u64) -> StakingArgs {
    StakingArgs { stake_type: 0, farm_id: 0, lock_duration }
}

fn swap_args() -> StakingArgs {
    StakingArgs { stake_type: 1, farm_id: 0, lock_duration: 0 }
}

#[test]
fn lock_schedule_over_time() {
    // deposit 1000 locked for 100 ms at t0: fully locked halfway through,
    // fully unlocked and withdrawable once the lock has passed
    let t0: u64 = 10_000;
    let mut c = farm_contract();
    c.ft_on_transfer(ALICE, TOKEN, 1000, token_args(100), t0).unwrap();
    assert_eq!(c.get_token_locked_amount(0, ALICE, t0 + 50).unwrap(), 1000);
    assert_eq!(c.get_token_locked_amount(0, ALICE, t0 + 150).unwrap(), 0);
    let action = c.unstake(ALICE, 0, 0, 1000, t0 + 150).unwrap();
    assert_eq!(
        action,
        Some(TransferAction::Ft { token_id: TOKEN, receiver_id: ALICE, amount: 1000 })
    );
    let st = &c.get_stake_infos_by_ownerid(0, ALICE).unwrap()[0];
    assert_eq!(st.token_amount, 0);
}

#[test]
fn locked_amount_never_exceeds_balance() {
    let t0: u64 = 10_000;
    let mut c = farm_contract();
    c.ft_on_transfer(ALICE, TOKEN, 600, token_args(100), t0).unwrap();
    c.ft_on_transfer(ALICE, TOKEN, 400, token_args(500), t0 + 10).unwrap();
    for now in [t0, t0 + 50, t0 + 120, t0 + 600] {
        let st = &c.get_stake_infos_by_ownerid(0, ALICE).unwrap()[0];
        let locked = c.get_token_locked_amount(0, ALICE, now).unwrap();
        assert!(locked <= st.token_amount);
    }
    // the two entries expire one after the other
    assert_eq!(c.get_token_locked_amount(0, ALICE, t0 + 50).unwrap(), 1000);
    assert_eq!(c.get_token_locked_amount(0, ALICE, t0 + 200).unwrap(), 400);
    assert_eq!(c.get_token_locked_amount(0, ALICE, t0 + 600).unwrap(), 0);
}

#[test]
fn reward_lock_follows_vesting_bound() {
    let mut c = farm_contract();
    c.ft_on_transfer(ALICE, TOKEN, 5, token_args(100), 1000).unwrap();
    c.claim_reward(ALICE, 0, 0, 3000).unwrap();
    // the claimed 2e12 vests for the reward vesting bound of 1000 ms
    assert_eq!(c.get_reward_locked_amount(0, ALICE, 3500).unwrap(), 2_000_000_000_000);
    assert_eq!(c.get_reward_locked_amount(0, ALICE, 4000).unwrap(), 0);
}

#[test]
fn conversion_golden_vector() {
    // 1_000_000 at 20 decimals over a rate of 1e8:
    // 1_000_000 / 10^(20-18) * 1e8 / 1e8 == 10_000
    let mut c = farm_contract();
    c.save_swap_farm(OWNER, SWAP_TOKEN, 100_000_000, 20, 10, 1_000).unwrap();
    c.ft_on_transfer(ALICE, SWAP_TOKEN, 1_000_000, swap_args(), 2_000).unwrap();
    let infos = c.get_swap_stake_info_by_userid(ALICE, 2_000).unwrap();
    assert_eq!(infos.len(), 1);
    assert_eq!(infos[0].token_id, SWAP_TOKEN);
    assert_eq!(infos[0].token_amount, 10_000);
    assert_eq!(infos[0].token_locked, vec![10_000]);
    // locked for the pool's full lock window
    assert_eq!(infos[0].unlocked_at, vec![3_000]);
    assert_eq!(infos[0].claimed_token_at, vec![2_000]);
}

#[test]
fn conversion_scales_up_small_decimals() {
    // 3 at 16 decimals over a rate of 1e8: 3 * 10^(18-16) * 1e8 / 1e8 == 300
    let mut c = farm_contract();
    c.save_swap_farm(OWNER, SWAP_TOKEN, 100_000_000, 16, 10, 1_000).unwrap();
    c.ft_on_transfer(ALICE, SWAP_TOKEN, 3, swap_args(), 2_000).unwrap();
    let infos = c.get_swap_stake_info_by_userid(ALICE, 2_000).unwrap();
    assert_eq!(infos[0].token_amount, 300);
}

#[test]
fn vesting_is_zero_inside_min_lock_window() {
    let mut c = farm_contract();
    c.save_swap_farm(OWNER, SWAP_TOKEN, 100_000_000, 18, 400, 1_000).unwrap();
    c.ft_on_transfer(ALICE, SWAP_TOKEN, 1_000_000_000_000_000, swap_args(), 0).unwrap();
    // unlock at 1000; nothing can be drawn before min_lock_time (400)
    assert_eq!(c.get_swap_unstake_amount_by_id(SWAP_TOKEN, ALICE, 0, 300).unwrap(), 0);
}

#[test]
fn vesting_interpolates_linearly() {
    let mut c = farm_contract();
    c.save_swap_farm(OWNER, SWAP_TOKEN, 100_000_000, 20, 0, 1_000).unwrap();
    // converts to 1e13, locked from 0 to 1000
    c.ft_on_transfer(ALICE, SWAP_TOKEN, 1_000_000_000_000_000, swap_args(), 0).unwrap();
    // halfway: floor(1e13 / 1e10) * 500 / 1000 * 1e10 == 5e12
    assert_eq!(
        c.get_swap_unstake_amount_by_id(SWAP_TOKEN, ALICE, 0, 500).unwrap(),
        5_000_000_000_000
    );
    // past the unlock the whole entry is drawable
    assert_eq!(
        c.get_swap_unstake_amount_by_id(SWAP_TOKEN, ALICE, 0, 1_001).unwrap(),
        10_000_000_000_000
    );
    let amounts = c.get_swap_unstake_amount(SWAP_TOKEN, ALICE, 500).unwrap();
    assert_eq!(amounts, vec![5_000_000_000_000]);
}

#[test]
fn unstake_swap_debits_entry_and_owes_base_token() {
    let mut c = farm_contract();
    c.save_swap_farm(OWNER, SWAP_TOKEN, 100_000_000, 20, 0, 1_000).unwrap();
    c.ft_on_transfer(ALICE, SWAP_TOKEN, 1_000_000_000_000_000, swap_args(), 0).unwrap();
    let action = c.unstake_swap(SWAP_TOKEN, ALICE, 0, 4_000_000_000_000, 500).unwrap();
    assert_eq!(
        action,
        TransferAction::Ft {
            token_id: BASE_TOKEN,
            receiver_id: ALICE,
            amount: 4_000_000_000_000,
        }
    );
    let infos = c.get_swap_stake_info_by_userid(ALICE, 500).unwrap();
    assert_eq!(infos[0].token_amount, 6_000_000_000_000);
    assert_eq!(infos[0].token_locked, vec![6_000_000_000_000]);
    // the entry's vesting base moved to the draw instant
    assert_eq!(infos[0].claimed_token_at, vec![500]);
}

#[test]
fn unstake_swap_rejects_more_than_vested() {
    let mut c = farm_contract();
    c.save_swap_farm(OWNER, SWAP_TOKEN, 100_000_000, 20, 0, 1_000).unwrap();
    c.ft_on_transfer(ALICE, SWAP_TOKEN, 1_000_000_000_000_000, swap_args(), 0).unwrap();
    // only 5e12 has vested at 500
    assert_eq!(
        c.unstake_swap(SWAP_TOKEN, ALICE, 0, 6_000_000_000_000, 500),
        Err(StakingError::InsufficientUnlocked)
    );
    assert_eq!(
        c.unstake_swap(SWAP_TOKEN, ALICE, 7, 1, 500),
        Err(StakingError::InvalidReference)
    );
}

#[test]
fn swap_with_zero_rate_fails_arithmetic() {
    let mut c = farm_contract();
    c.save_swap_farm(OWNER, SWAP_TOKEN, 0, 18, 0, 1_000).unwrap();
    assert_eq!(
        c.ft_on_transfer(ALICE, SWAP_TOKEN, 5, swap_args(), 0),
        Err(StakingError::Arithmetic)
    );
}

#[test]
fn swap_deposit_needs_swap_stake_type() {
    // the same token arriving with the plain staking type goes to the farm
    // path, where it does not match the farm's token and credits nothing
    let mut c = farm_contract();
    c.save_swap_farm(OWNER, SWAP_TOKEN, 100_000_000, 18, 0, 1_000).unwrap();
    c.ft_on_transfer(ALICE, SWAP_TOKEN, 5, token_args(10), 0).unwrap();
    assert!(c.get_swap_stake_info_by_userid(ALICE, 0).unwrap().is_empty());
}
