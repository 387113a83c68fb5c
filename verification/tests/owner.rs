use staking::types::NANOSECONDS;
use staking::{CallContext, StakeError, StakingContract};

const OWNER: &str = "owner.testnet";
const TOKEN: &str = "token.testnet";

fn call(predecessor: &str, attached_deposit: u128) -> CallContext {
    CallContext {
        predecessor_account_id: predecessor.to_string(),
        attached_deposit,
        block_timestamp: 3 * NANOSECONDS,
    }
}

fn contract() -> StakingContract {
    StakingContract::new(OWNER.to_string(), TOKEN.to_string())
}

#[test]
fn owner_pauses_and_resumes() {
    let mut contract = contract();
    assert_eq!(contract.pause_stake(&call(OWNER, 1), true), Ok(()));
    assert!(contract.stake_paused);
    assert_eq!(contract.pause_stake(&call(OWNER, 1), false), Ok(()));
    assert!(!contract.stake_paused);
}

#[test]
fn pause_by_another_account_is_refused() {
    let mut contract = contract();
    assert_eq!(contract.pause_stake(&call("bob", 1), true), Err(StakeError::NotOwner));
    assert_eq!(contract.pause_stake(&call(TOKEN, 1), true), Err(StakeError::NotOwner));
    assert!(!contract.stake_paused);
}

#[test]
fn pause_without_the_deposit_is_refused() {
    let mut contract = contract();
    assert_eq!(contract.pause_stake(&call(OWNER, 0), true), Err(StakeError::DepositRequired));
    assert_eq!(contract.pause_stake(&call(OWNER, 2), true), Err(StakeError::DepositRequired));
    // The deposit is looked at before the caller.
    assert_eq!(contract.pause_stake(&call("bob", 0), true), Err(StakeError::DepositRequired));
    assert!(!contract.stake_paused);
}

#[test]
fn owner_sets_the_lock_duration() {
    let mut contract = contract();
    assert_eq!(contract.set_lock_duration(&call(OWNER, 1), 0), Ok(()));
    assert_eq!(contract.get_lock_duration(), 0);
    assert_eq!(contract.set_lock_duration(&call(OWNER, 1), u64::MAX), Ok(()));
    assert_eq!(contract.get_lock_duration(), u64::MAX);
}

#[test]
fn lock_duration_from_another_account_is_refused() {
    let mut contract = contract();
    assert_eq!(contract.set_lock_duration(&call("bob", 1), 5), Err(StakeError::NotOwner));
    assert_eq!(contract.set_lock_duration(&call(OWNER, 0), 5), Err(StakeError::DepositRequired));
    assert_eq!(contract.get_lock_duration(), 1_209_600);
}

#[test]
fn owner_sets_the_stake_amount() {
    let mut contract = contract();
    assert_eq!(contract.set_stake_amount(&call(OWNER, 1), 1), Ok(()));
    assert_eq!(contract.get_stake_amount(), 1);
    assert_eq!(contract.set_stake_amount(&call(OWNER, 1), u128::MAX), Ok(()));
    assert_eq!(contract.get_stake_amount(), u128::MAX);
}

#[test]
fn stake_amount_of_zero_is_refused() {
    let mut contract = contract();
    assert_eq!(contract.set_stake_amount(&call(OWNER, 1), 0), Err(StakeError::ZeroStakeAmount));
    assert_eq!(contract.get_stake_amount(), 100_000_000_000_000_000_000);
}

#[test]
fn stake_amount_from_another_account_is_refused() {
    let mut contract = contract();
    assert_eq!(contract.set_stake_amount(&call("bob", 1), 5), Err(StakeError::NotOwner));
    assert_eq!(contract.set_stake_amount(&call("bob", 1), 0), Err(StakeError::NotOwner));
    assert_eq!(contract.set_stake_amount(&call(OWNER, 3), 5), Err(StakeError::DepositRequired));
    assert_eq!(contract.get_stake_amount(), 100_000_000_000_000_000_000);
}

#[test]
fn owner_hands_the_contract_over() {
    let mut contract = contract();
    assert_eq!(contract.update_owner(&call(OWNER, 1), "carol".to_string()), Ok(true));
    assert_eq!(contract.owner(), "carol".to_string());
    // The former owner has no say any more, the new one has.
    assert_eq!(contract.pause_stake(&call(OWNER, 1), true), Err(StakeError::NotOwner));
    assert_eq!(contract.pause_stake(&call("carol", 1), true), Ok(()));
}

#[test]
fn empty_owner_is_refused() {
    let mut contract = contract();
    assert_eq!(contract.update_owner(&call(OWNER, 1), String::new()), Err(StakeError::EmptyOwner));
    assert_eq!(contract.owner(), OWNER.to_string());
}

#[test]
fn handing_over_by_another_account_is_refused() {
    let mut contract = contract();
    assert_eq!(contract.update_owner(&call("bob", 1), "bob".to_string()), Err(StakeError::NotOwner));
    assert_eq!(contract.update_owner(&call("bob", 1), String::new()), Err(StakeError::NotOwner));
    assert_eq!(
        contract.update_owner(&call(OWNER, 0), "bob".to_string()),
        Err(StakeError::DepositRequired)
    );
    assert_eq!(contract.owner(), OWNER.to_string());
}
