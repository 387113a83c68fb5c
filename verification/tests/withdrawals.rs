use near_sdk::PromiseError;
use staking::types::{NANOSECONDS, WEEK};
use staking::{CallContext, StakeError, StakeInfo, StakingContract, UserStakeInfo};

const OWNER: &str = "owner.testnet";
const TOKEN: &str = "token.testnet";
const LOCK: u64 = 2 * WEEK;

fn call(predecessor: &str, attached_deposit: u128, seconds: u64) -> CallContext {
    CallContext {
        predecessor_account_id: predecessor.to_string(),
        attached_deposit,
        block_timestamp: seconds * NANOSECONDS,
    }
}

/// A contract that requires a stake of 100, with the given deposits made.
fn contract_with(deposits: &[(&str, u64)]) -> StakingContract {
    let mut contract = StakingContract::new(OWNER.to_string(), TOKEN.to_string());
    assert_eq!(contract.set_stake_amount(&call(OWNER, 1, 0), 100), Ok(()));
    for (sender, seconds) in deposits {
        let accepted =
            contract.ft_on_transfer(&call(TOKEN, 0, *seconds), sender.to_string(), 100, String::new());
        assert_eq!(accepted, Ok(0));
    }
    contract
}

#[test]
fn withdrawal_one_second_early_is_refused() {
    let mut contract = contract_with(&[("bob", 1000)]);
    assert_eq!(
        contract.unstake(&call("bob", 1, 1000 + LOCK - 1)),
        Err(StakeError::LockNotElapsed)
    );
    assert_eq!(
        contract.get_stake_info("bob".to_string()),
        Some(StakeInfo { amount: 100, start_time: 1000 })
    );
    assert_eq!(contract.user_states.get(&"bob".to_string()), Some(0));
    assert_eq!(contract.get_total_stake(), 100);
    assert_eq!(contract.get_total_user(), 1);
}

#[test]
fn withdrawal_one_nanosecond_early_is_refused() {
    let mut contract = contract_with(&[("bob", 1000)]);
    let ctx = CallContext {
        predecessor_account_id: "bob".to_string(),
        attached_deposit: 1,
        block_timestamp: (1000 + LOCK) * NANOSECONDS - 1,
    };
    assert_eq!(contract.unstake(&ctx), Err(StakeError::LockNotElapsed));
}

#[test]
fn withdrawal_at_the_end_of_the_lock_is_accepted() {
    let mut contract = contract_with(&[("bob", 1000)]);
    assert_eq!(contract.unstake(&call("bob", 1, 1000 + LOCK)), Ok(100));
}

#[test]
fn withdrawal_can_be_tried_again_later() {
    let mut contract = contract_with(&[("bob", 0)]);
    assert_eq!(contract.unstake(&call("bob", 1, 5)), Err(StakeError::LockNotElapsed));
    assert_eq!(contract.unstake(&call("bob", 1, LOCK)), Ok(100));
}

#[test]
fn lock_follows_the_lock_duration() {
    let mut contract = contract_with(&[("bob", 10)]);
    assert_eq!(contract.set_lock_duration(&call(OWNER, 1, 0), 5), Ok(()));
    assert_eq!(contract.unstake(&call("bob", 1, 14)), Err(StakeError::LockNotElapsed));
    assert_eq!(contract.unstake(&call("bob", 1, 15)), Ok(100));
}

#[test]
fn lock_beyond_the_end_of_time_never_runs_out() {
    let mut contract = contract_with(&[("bob", 10)]);
    assert_eq!(contract.set_lock_duration(&call(OWNER, 1, 0), u64::MAX), Ok(()));
    let ctx = CallContext {
        predecessor_account_id: "bob".to_string(),
        attached_deposit: 1,
        block_timestamp: u64::MAX,
    };
    assert_eq!(contract.unstake(&ctx), Err(StakeError::LockNotElapsed));
    assert_eq!(contract.get_total_user(), 1);
}

#[test]
fn commit_path() {
    let mut contract = contract_with(&[("bob", 0)]);
    assert_eq!(
        contract.get_stake_info("bob".to_string()),
        Some(StakeInfo { amount: 100, start_time: 0 })
    );

    assert_eq!(contract.unstake(&call("bob", 1, LOCK)), Ok(100));
    assert_eq!(contract.get_stake_info("bob".to_string()), None);
    assert_eq!(contract.user_states.get(&"bob".to_string()), Some(2));
    // Until the transfer settles the totals still count the principal.
    assert_eq!(contract.get_total_stake(), 100);
    assert_eq!(contract.get_total_user(), 1);

    assert!(contract.on_ft_transfer_then_remove("bob".to_string(), 100, 0, Ok(())));
    assert_eq!(contract.get_total_stake(), 0);
    assert_eq!(contract.get_total_user(), 0);
    assert_eq!(contract.user_states.get(&"bob".to_string()), Some(0));
    assert_eq!(contract.get_stake_info("bob".to_string()), None);
}

#[test]
fn rollback_path() {
    let mut contract = contract_with(&[("bob", 0)]);
    assert_eq!(contract.unstake(&call("bob", 1, LOCK)), Ok(100));
    assert_eq!(contract.get_stake_info("bob".to_string()), None);

    let delivered =
        contract.on_ft_transfer_then_remove("bob".to_string(), 100, 0, Err(PromiseError::Failed));
    assert!(!delivered);
    assert_eq!(
        contract.get_stake_info("bob".to_string()),
        Some(StakeInfo { amount: 100, start_time: 0 })
    );
    assert_eq!(contract.get_total_stake(), 100);
    assert_eq!(contract.get_total_user(), 1);
    assert_eq!(contract.user_states.get(&"bob".to_string()), Some(0));
}

#[test]
fn rollback_after_an_overlong_answer() {
    let mut contract = contract_with(&[("bob", 7)]);
    assert_eq!(contract.unstake(&call("bob", 1, 7 + LOCK)), Ok(100));
    let delivered = contract.on_ft_transfer_then_remove(
        "bob".to_string(),
        100,
        7,
        Err(PromiseError::TooLong(4096)),
    );
    assert!(!delivered);
    assert_eq!(
        contract.get_stake_info("bob".to_string()),
        Some(StakeInfo { amount: 100, start_time: 7 })
    );
}

#[test]
fn withdrawal_can_be_repeated_after_a_rollback() {
    let mut contract = contract_with(&[("bob", 0)]);
    assert_eq!(contract.unstake(&call("bob", 1, LOCK)), Ok(100));
    assert!(!contract.on_ft_transfer_then_remove(
        "bob".to_string(),
        100,
        0,
        Err(PromiseError::Failed)
    ));
    assert_eq!(contract.unstake(&call("bob", 1, LOCK + 1)), Ok(100));
    assert!(contract.on_ft_transfer_then_remove("bob".to_string(), 100, 0, Ok(())));
    assert_eq!(contract.get_total_stake(), 0);
    assert_eq!(contract.get_total_user(), 0);
}

#[test]
fn rollback_keeps_the_amount_when_the_stake_changed() {
    let mut contract = contract_with(&[("bob", 0)]);
    assert_eq!(contract.unstake(&call("bob", 1, LOCK)), Ok(100));
    assert_eq!(contract.set_stake_amount(&call(OWNER, 1, 0), 500), Ok(()));
    assert!(!contract.on_ft_transfer_then_remove(
        "bob".to_string(),
        100,
        0,
        Err(PromiseError::Failed)
    ));
    assert_eq!(
        contract.user_staked("bob".to_string()),
        UserStakeInfo { staked: false, amount: 100, start_time: 0 }
    );
}

#[test]
fn withdrawal_without_the_deposit_is_refused() {
    let mut contract = contract_with(&[("bob", 0)]);
    assert_eq!(contract.unstake(&call("bob", 0, LOCK)), Err(StakeError::DepositRequired));
    assert_eq!(contract.unstake(&call("bob", 2, LOCK)), Err(StakeError::DepositRequired));
    assert_eq!(
        contract.get_stake_info("bob".to_string()),
        Some(StakeInfo { amount: 100, start_time: 0 })
    );
}

#[test]
fn withdrawal_without_a_stake_is_refused() {
    let mut contract = contract_with(&[("bob", 0)]);
    assert_eq!(contract.unstake(&call("carol", 1, LOCK)), Err(StakeError::NoStake));
    assert_eq!(contract.user_states.get(&"carol".to_string()), None);
    assert_eq!(contract.get_total_user(), 1);
}

#[test]
fn second_withdrawal_in_flight_is_refused() {
    let mut contract = contract_with(&[("bob", 0)]);
    assert_eq!(contract.unstake(&call("bob", 1, LOCK)), Ok(100));
    // The record is gone while the first withdrawal is in flight.
    assert_eq!(contract.unstake(&call("bob", 1, LOCK)), Err(StakeError::NoStake));
    assert_eq!(contract.user_states.get(&"bob".to_string()), Some(2));
}

#[test]
fn withdrawal_of_a_marked_account_is_refused() {
    let mut contract = contract_with(&[("bob", 0)]);
    contract.user_states.insert(&"bob".to_string(), &2);
    assert_eq!(contract.unstake(&call("bob", 1, LOCK)), Err(StakeError::UnstakingInProgress));
    assert_eq!(
        contract.get_stake_info("bob".to_string()),
        Some(StakeInfo { amount: 100, start_time: 0 })
    );
}

#[test]
fn withdrawal_during_a_deposit_is_refused() {
    let mut contract = contract_with(&[("bob", 0)]);
    contract.user_states.insert(&"bob".to_string(), &1);
    assert_eq!(contract.unstake(&call("bob", 1, LOCK)), Err(StakeError::StakingInProgress));
    assert_eq!(
        contract.get_stake_info("bob".to_string()),
        Some(StakeInfo { amount: 100, start_time: 0 })
    );
    assert_eq!(contract.user_states.get(&"bob".to_string()), Some(1));
}

#[test]
fn withdrawal_with_an_unknown_state_is_refused() {
    let mut contract = contract_with(&[("bob", 0)]);
    contract.user_states.insert(&"bob".to_string(), &200);
    assert_eq!(contract.unstake(&call("bob", 1, LOCK)), Err(StakeError::UnknownState));
}

#[test]
fn state_is_checked_before_the_lock() {
    let mut contract = contract_with(&[("bob", 0)]);
    contract.user_states.insert(&"bob".to_string(), &1);
    assert_eq!(contract.unstake(&call("bob", 1, 0)), Err(StakeError::StakingInProgress));
}

#[test]
fn withdrawals_of_two_accounts_do_not_meet() {
    let mut contract = contract_with(&[("bob", 0), ("carol", 5)]);
    assert_eq!(contract.unstake(&call("bob", 1, LOCK + 5)), Ok(100));
    assert_eq!(contract.unstake(&call("carol", 1, LOCK + 5)), Ok(100));
    assert_eq!(contract.get_total_stake(), 200);
    assert_eq!(contract.get_total_user(), 2);
    assert!(contract.search_stake_infos(None, None).is_empty());

    assert!(!contract.on_ft_transfer_then_remove(
        "carol".to_string(),
        100,
        5,
        Err(PromiseError::Failed)
    ));
    assert!(contract.on_ft_transfer_then_remove("bob".to_string(), 100, 0, Ok(())));
    assert_eq!(contract.get_total_stake(), 100);
    assert_eq!(contract.get_total_user(), 1);
    assert_eq!(contract.get_stake_info("bob".to_string()), None);
    assert_eq!(
        contract.get_stake_info("carol".to_string()),
        Some(StakeInfo { amount: 100, start_time: 5 })
    );
    assert_eq!(contract.user_states.get(&"bob".to_string()), Some(0));
    assert_eq!(contract.user_states.get(&"carol".to_string()), Some(0));
}

#[test]
fn totals_match_the_records_after_a_sequence() {
    let mut contract = contract_with(&[("bob", 0), ("carol", 1), ("dave", 2), ("erin", 3)]);
    assert_eq!(contract.unstake(&call("carol", 1, LOCK + 3)), Ok(100));
    assert!(contract.on_ft_transfer_then_remove("carol".to_string(), 100, 1, Ok(())));
    assert_eq!(contract.unstake(&call("bob", 1, LOCK + 3)), Ok(100));
    assert!(!contract.on_ft_transfer_then_remove(
        "bob".to_string(),
        100,
        0,
        Err(PromiseError::Failed)
    ));
    assert_eq!(
        contract.ft_on_transfer(&call(TOKEN, 0, 9), "carol".to_string(), 100, String::new()),
        Ok(0)
    );
    assert_eq!(contract.unstake(&call("erin", 1, LOCK + 3)), Ok(100));
    assert!(contract.on_ft_transfer_then_remove("erin".to_string(), 100, 3, Ok(())));

    let listed = contract.search_stake_infos(None, None);
    let sum: u128 = listed.iter().map(|(_, info)| info.amount).sum();
    assert_eq!(contract.get_total_stake(), 300);
    assert_eq!(sum, 300);
    assert_eq!(contract.get_total_user(), 3);
    assert_eq!(listed.len(), 3);
}
