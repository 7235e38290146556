//! The administrative surface: roles, the confirm-before-apply farm draft,
//! conversion-pool drafts, storage balances and the remaining views.
use masterchef_staking::Contract;
use masterchef_staking::STORAGE_PER_SALE;
use masterchef_staking::errors::StakingError;

const OWNER: u64 = 1;
const ADMIN_A: u64 = 2;
const ADMIN_B: u64 = 3;
const STRANGER: u64 = 99;
const TOKEN: u64 = 7;
const SWAP_TOKEN: u64 = 5;

#[test]
fn owner_gates_admin_and_farm_management() {
    let mut c = Contract::new(OWNER);
    assert_eq!(c.add_admin(STRANGER, ADMIN_A), Err(StakingError::Unauthorized));
    assert_eq!(
        c.add_farm(STRANGER, 0, TOKEN, 18, 0, 0, 0, 0, 0, 0, 1, 1, 0, 10),
        Err(StakingError::Unauthorized)
    );
    c.add_admin(OWNER, ADMIN_A).unwrap();
    c.add_admin(OWNER, ADMIN_A).unwrap();
    c.add_admin(OWNER, ADMIN_B).unwrap();
    assert_eq!(c.get_adminlist(), vec![ADMIN_A, ADMIN_B]);
    assert!(c.is_admin(ADMIN_A));
    assert!(!c.is_admin(STRANGER));
}

#[test]
fn farm_draft_applies_when_every_admin_confirms() {
    let mut c = Contract::new(OWNER);
    c.add_admin(OWNER, ADMIN_A).unwrap();
    c.add_admin(OWNER, ADMIN_B).unwrap();
    assert_eq!(
        c.save_editing_farm_info(STRANGER, 0, TOKEN, 18, 0, 10, 0, 0, 100, 100, 50, 60, 1_000, 2_000),
        Err(StakingError::Unauthorized)
    );
    c.save_editing_farm_info(ADMIN_A, 0, TOKEN, 18, 0, 10, 0, 0, 100, 100, 50, 60, 1_000, 2_000)
        .unwrap();
    // one of two admins has confirmed: still a draft
    assert_eq!(c.get_farm_length(), 0);
    assert_eq!(c.get_confirmed_admins_for_new_farm(), vec![ADMIN_A]);
    let draft = c.get_editing_farm_info();
    assert_eq!(draft.token_id, TOKEN);
    assert_eq!(draft.starting_at, 1_000);
    c.confirm_new_farm(ADMIN_B).unwrap();
    // applied: the farm exists and the draft is reset
    assert_eq!(c.get_farm_length(), 1);
    assert!(c.get_confirmed_admins_for_new_farm().is_empty());
    let farm = c.get_farm_info(0).unwrap();
    assert_eq!(farm.farm_id, 0);
    assert_eq!(farm.token_id, TOKEN);
    assert_eq!(farm.token_reward_rate, 10);
    assert_eq!(farm.starting_at, 1_000);
    assert_eq!(farm.ending_at, 2_000);
    assert_eq!(c.get_editing_farm_info().token_id, 0);
}

#[test]
fn overlapping_farm_window_is_rejected() {
    let mut c = Contract::new(OWNER);
    c.add_admin(OWNER, ADMIN_A).unwrap();
    // a single admin applies the draft at once
    c.save_editing_farm_info(ADMIN_A, 0, TOKEN, 18, 0, 10, 0, 0, 100, 100, 50, 60, 1_000, 2_000)
        .unwrap();
    assert_eq!(c.get_farm_length(), 1);
    // same token and type, window cutting into the existing one
    assert_eq!(
        c.save_editing_farm_info(ADMIN_A, 0, TOKEN, 18, 0, 10, 0, 0, 100, 100, 50, 60, 1_500, 3_000),
        Err(StakingError::ScheduleConflict)
    );
    // another token is fine
    c.save_editing_farm_info(ADMIN_A, 0, TOKEN + 1, 18, 0, 10, 0, 0, 100, 100, 50, 60, 1_500, 3_000)
        .unwrap();
    assert_eq!(c.get_farm_length(), 2);
}

#[test]
fn removing_an_admin_can_complete_a_farm_draft() {
    const ADMIN_C: u64 = 4;
    let mut c = Contract::new(OWNER);
    c.add_admin(OWNER, ADMIN_A).unwrap();
    c.add_admin(OWNER, ADMIN_B).unwrap();
    c.add_admin(OWNER, ADMIN_C).unwrap();
    c.save_editing_farm_info(ADMIN_A, 0, TOKEN, 18, 0, 10, 0, 0, 100, 100, 50, 60, 1_000, 2_000)
        .unwrap();
    c.confirm_new_farm(ADMIN_B).unwrap();
    assert_eq!(c.get_farm_length(), 0);
    // removing an admin who never confirmed withdraws nothing, so the
    // draft stays pending even though the counts now match
    c.remove_admin(OWNER, ADMIN_C).unwrap();
    assert_eq!(c.get_farm_length(), 0);
    assert_eq!(c.get_confirmed_admins_for_new_farm(), vec![ADMIN_A, ADMIN_B]);
    // removing a confirmer re-balances the sets: every remaining admin has
    // confirmed, so the draft applies
    c.remove_admin(OWNER, ADMIN_B).unwrap();
    assert_eq!(c.get_adminlist(), vec![ADMIN_A]);
    assert_eq!(c.get_farm_length(), 1);
    assert!(c.get_confirmed_admins_for_new_farm().is_empty());
}

#[test]
fn swap_pool_draft_confirm_and_apply() {
    let mut c = Contract::new(OWNER);
    c.add_admin(OWNER, ADMIN_A).unwrap();
    c.add_admin(OWNER, ADMIN_B).unwrap();
    c.save_swap_farm(OWNER, SWAP_TOKEN, 100, 18, 10, 1_000).unwrap();
    assert_eq!(c.get_swap_tokens(), vec![SWAP_TOKEN]);
    c.save_editing_swap_farm_info(ADMIN_A, SWAP_TOKEN, 999, 20, 2_000).unwrap();
    // the pool still has the old parameters
    assert_eq!(c.get_swap_farm_info()[0].swap_rate, 100);
    let drafts = c.get_editing_swap_farm_info();
    assert_eq!(drafts[0].swap_rate, 999);
    assert_eq!(drafts[0].confirmed_admins, vec![ADMIN_A]);
    assert_eq!(
        c.confirm_editing_swap_farm_info(ADMIN_A, SWAP_TOKEN + 1),
        Err(StakingError::InvalidReference)
    );
    c.confirm_editing_swap_farm_info(ADMIN_B, SWAP_TOKEN).unwrap();
    // applied to the pool, confirmations cleared
    let pools = c.get_swap_farm_info();
    assert_eq!(pools[0].swap_rate, 999);
    assert_eq!(pools[0].min_lock_time, 20);
    assert_eq!(pools[0].max_lock_time, 2_000);
    assert!(c.get_editing_swap_farm_info()[0].confirmed_admins.is_empty());
}

#[test]
fn removing_an_admin_can_complete_a_swap_pool_draft() {
    let mut c = Contract::new(OWNER);
    c.add_admin(OWNER, ADMIN_A).unwrap();
    c.add_admin(OWNER, ADMIN_B).unwrap();
    c.save_swap_farm(OWNER, SWAP_TOKEN, 100, 18, 10, 1_000).unwrap();
    c.save_editing_swap_farm_info(ADMIN_A, SWAP_TOKEN, 777, 30, 3_000).unwrap();
    c.remove_admin(OWNER, ADMIN_A).unwrap();
    // the draft lost its only confirmation and ADMIN_B alone remains: the
    // set no longer covers the admins, so nothing applies
    assert_eq!(c.get_swap_farm_info()[0].swap_rate, 100);
    assert!(c.get_editing_swap_farm_info()[0].confirmed_admins.is_empty());
}

#[test]
fn remove_swap_farm_clears_pool_and_draft() {
    let mut c = Contract::new(OWNER);
    c.save_swap_farm(OWNER, SWAP_TOKEN, 100, 18, 10, 1_000).unwrap();
    assert_eq!(
        c.remove_swap_farm(STRANGER, SWAP_TOKEN),
        Err(StakingError::Unauthorized)
    );
    c.remove_swap_farm(OWNER, SWAP_TOKEN).unwrap();
    assert!(c.get_swap_tokens().is_empty());
    assert!(c.get_editing_swap_farm_info().is_empty());
}

#[test]
fn storage_deposits_accumulate_and_withdraw() {
    let mut c = Contract::new(OWNER);
    assert_eq!(
        c.storage_deposit(ADMIN_A, STORAGE_PER_SALE - 1),
        Err(StakingError::InvalidAmount)
    );
    c.storage_deposit(ADMIN_A, STORAGE_PER_SALE).unwrap();
    c.storage_deposit(ADMIN_A, STORAGE_PER_SALE).unwrap();
    assert_eq!(c.storage_balance_of(ADMIN_A), 2 * STORAGE_PER_SALE);
    assert_eq!(c.storage_paid(ADMIN_A), 2 * STORAGE_PER_SALE);
    assert_eq!(c.storage_balance_of(ADMIN_B), 0);
    assert_eq!(c.storage_withdraw(ADMIN_A), 2 * STORAGE_PER_SALE);
    assert_eq!(c.storage_balance_of(ADMIN_A), 0);
    assert_eq!(c.storage_withdraw(ADMIN_A), 0);
    assert_eq!(c.storage_minimum_balance(), STORAGE_PER_SALE);
    assert_eq!(c.storage_amount(), STORAGE_PER_SALE);
    let bounds = c.storage_balance_bounds();
    assert_eq!(bounds.0, STORAGE_PER_SALE);
    assert!(bounds.1.is_none());
}

#[test]
fn error_reasons_are_reported() {
    assert_eq!(
        StakingError::InsufficientUnlocked.reason(),
        "Amount must be smaller than available amount"
    );
    assert_eq!(StakingError::InvalidAmount.reason(), "Amount must be greater than 0");
    assert_eq!(
        StakingError::ScheduleConflict.reason(),
        "Farm Time Overlaps. Plz input valid farm time"
    );
}

#[test]
fn storage_deposit_overflow_is_fatal() {
    let mut c = Contract::new(OWNER);
    c.storage_deposit(ADMIN_A, u128::MAX).unwrap();
    assert_eq!(
        c.storage_deposit(ADMIN_A, STORAGE_PER_SALE),
        Err(StakingError::Arithmetic)
    );
    // the failed operation changed nothing
    assert_eq!(c.storage_balance_of(ADMIN_A), u128::MAX);
}

#[test]
fn position_lookup_copies_the_stake() {
    let mut c = Contract::new(OWNER);
    c.add_farm(OWNER, 0, TOKEN, 18, 0, 1, 0, 0, 100, 100, 50, 60, 0, 1_000_000).unwrap();
    assert!(c.staking_informations_by_owner_id(0, ADMIN_A).is_err());
    let args = masterchef_staking::deposit::StakingArgs {
        stake_type: 0,
        farm_id: 0,
        lock_duration: 10,
    };
    c.ft_on_transfer(ADMIN_A, TOKEN, 11, args, 500).unwrap();
    let st = c.staking_informations_by_owner_id(0, ADMIN_A).unwrap();
    assert_eq!(st.owner_id, ADMIN_A);
    assert_eq!(st.token_amount, 11);
    assert_eq!(st.created_at, 500);
}
