use near_sdk::test_utils::accounts;
use near_sdk::AccountId;
use staking::{CallContext, StakingContract};

const TOKEN_CONTRACT: &str = "token.testnet";

/// The context of a call by `predecessor` with a deposit, at a block time.
fn get_context(predecessor: AccountId, attached_deposit: u128, block_timestamp: u64) -> CallContext {
    CallContext {
        predecessor_account_id: predecessor.to_string(),
        attached_deposit,
        block_timestamp,
    }
}

#[test]
fn test_contract_initialization() {
    let token_contract: AccountId = TOKEN_CONTRACT.parse().unwrap();
    let contract = StakingContract::new(accounts(0).to_string(), token_contract.to_string());

    assert_eq!(contract.owner_id, accounts(0).to_string());
    assert_eq!(contract.token_contract, token_contract.to_string());
}

#[test]
fn test_staking() {
    let context = get_context(TOKEN_CONTRACT.parse().unwrap(), 0, 0);
    let mut contract =
        StakingContract::new(accounts(0).to_string(), TOKEN_CONTRACT.to_string());

    let sender_id = accounts(1).to_string();
    let stake_amount: u128 = 100_000_000_000_000_000_000;

    let unused = contract.ft_on_transfer(&context, sender_id.clone(), stake_amount, "".to_string());
    assert_eq!(unused, Ok(0));

    let stake_info = contract.get_stake_info(sender_id).unwrap();
    assert_eq!(stake_info.amount, stake_amount);
}

#[test]
fn test_multiple_staking() {
    let context = get_context(TOKEN_CONTRACT.parse().unwrap(), 0, 0);
    let mut contract =
        StakingContract::new(accounts(0).to_string(), TOKEN_CONTRACT.to_string());

    let sender_id = accounts(1).to_string();
    let first_stake_amount: u128 = 100_000_000_000_000_000_000;
    let second_stake_amount: u128 = 100_000_000_000_000_000_000;

    assert_eq!(
        contract.ft_on_transfer(&context, sender_id.clone(), first_stake_amount, "".to_string()),
        Ok(0)
    );
    let context = get_context(accounts(0), 1, 0);
    assert_eq!(contract.set_stake_amount(&context, 200_000_000_000_000_000_000), Ok(()));
    let context = get_context(TOKEN_CONTRACT.parse().unwrap(), 0, 0);
    assert_eq!(
        contract.ft_on_transfer(&context, sender_id.clone(), second_stake_amount, "".to_string()),
        Ok(0)
    );

    let stake_info = contract.get_stake_info(sender_id).unwrap();
    assert_eq!(stake_info.amount, first_stake_amount + second_stake_amount);
    assert_eq!(contract.get_total_user(), 1);
    assert_eq!(contract.get_total_stake(), 200_000_000_000_000_000_000);
}

#[test]
fn test_staking_longtime() {
    let initial_timestamp: u64 = 0;
    let context = get_context(TOKEN_CONTRACT.parse().unwrap(), 0, initial_timestamp);
    let mut contract =
        StakingContract::new(accounts(0).to_string(), TOKEN_CONTRACT.to_string());
    let sender_id = accounts(1).to_string();
    let stake_amount: u128 = 100_000_000_000_000_000_000;
    assert_eq!(
        contract.ft_on_transfer(&context, sender_id.clone(), stake_amount, "".to_string()),
        Ok(0)
    );
    // A year later the record still holds the principal and nothing else.
    let new_timestamp = initial_timestamp + 365 * 24 * 60 * 60 * 1_000_000_000;
    let context = get_context(TOKEN_CONTRACT.parse().unwrap(), 0, new_timestamp);
    assert_eq!(context.now(), 365 * 24 * 60 * 60);

    let stake_info = contract.get_stake_info(sender_id).unwrap();

    assert_eq!(stake_info.amount, 100_000_000_000_000_000_000);
}

#[test]
fn test_unstaking() {
    let initial_timestamp: u64 = 0;
    let context = get_context(TOKEN_CONTRACT.parse().unwrap(), 0, initial_timestamp);
    let mut contract =
        StakingContract::new(accounts(0).to_string(), TOKEN_CONTRACT.to_string());

    let sender_id = accounts(1).to_string();
    let stake_amount: u128 = 100_000_000_000_000_000_000;
    assert_eq!(
        contract.ft_on_transfer(&context, sender_id.clone(), stake_amount, "".to_string()),
        Ok(0)
    );

    // A year later the lock has run out.
    let new_timestamp = initial_timestamp + 365 * 24 * 60 * 60 * 1_000_000_000;
    let context = get_context(accounts(1), 1, new_timestamp);

    let mut stake_info = contract.get_stake_info(sender_id.clone());
    assert_eq!(contract.unstake(&context), Ok(stake_amount));
    let stake = stake_info.unwrap();
    contract.on_ft_transfer_then_remove(
        accounts(1).to_string(),
        stake.amount,
        stake.start_time,
        Ok(()),
    );
    stake_info = contract.get_stake_info(sender_id);
    assert!(stake_info.is_none());
    assert_eq!(contract.get_total_stake(), 0);
    assert_eq!(contract.get_total_user(), 0);
}
