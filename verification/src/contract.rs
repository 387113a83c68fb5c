//! The staking contract: the ledger in executable form.

use crate::entries::{distinct_keys, lemma_put, lemma_take};
use crate::model::{stake_record, Ledger};
use crate::store::{
    balance_entries, balances_get, balances_insert, balances_key_at, balances_len,
    balances_new, balances_remove, balances_value_at, state_tags, states_get, states_insert,
    states_new,
};
use crate::types::{
    storable, CallContext, StakeError, StakeInfo, UserOperationState, UserStakeInfo,
    DEFAULT_PAGE_LIMIT, ONE_YOCTO, STAKE_AMOUNT, WEEK,
};
use near_sdk::collections::UnorderedMap;
use near_sdk::PromiseError;
use vstd::prelude::*;

verus! {

/// A staking contract. Its two maps live in contract storage under the
/// prefixes `s` (records) and `user_states` (operation states).
pub struct StakingContract {
    /// The account that may change the parameters.
    pub owner_id: String,
    /// The asset contract whose transfers count as deposits.
    pub token_contract: String,
    /// The stake record of each staking account, as principal and start time.
    pub staked_balances: UnorderedMap<String, (u128, u64)>,
    /// The operation state of each account that ever began an operation,
    /// stored as [`UserOperationState::tag`].
    pub user_states: UnorderedMap<String, u8>,
    /// The balance that a deposit has to reach exactly.
    pub stake_amount: u128,
    /// The seconds for which a stake stays locked.
    pub lock_duration: u64,
    /// Whether deposits are refused.
    pub stake_paused: bool,
    /// The running total of principal.
    pub total_staked: u128,
    /// The running count of staking accounts.
    pub total_user: u64,
}

impl View for StakingContract {
    type V = Ledger;

    open spec fn view(&self) -> Ledger {
        Ledger {
            owner_id: self.owner_id@,
            token_contract: self.token_contract@,
            balances: balance_entries(self.staked_balances),
            states: state_tags(self.user_states),
            stake_amount: self.stake_amount,
            lock_duration: self.lock_duration,
            stake_paused: self.stake_paused,
            total_staked: self.total_staked,
            total_user: self.total_user,
        }
    }
}

/// The names of the records of a page, each with its record.
pub open spec fn page_view(page: Seq<(String, StakeInfo)>) -> Seq<(Seq<char>, StakeInfo)> {
    Seq::new(page.len(), |i: int| (page[i].0@, page[i].1))
}

impl StakingContract {
    /// A contract without any stake, owned by `owner_id`, that takes deposits
    /// of `token_contract`, requires the default stake and locks it for two
    /// weeks. The maps of a contract are found by their prefixes, so storage
    /// holds one contract, made once.
    pub fn new(owner_id: String, token_contract: String) -> (contract: StakingContract)
        ensures
            contract@ == Ledger::initial(owner_id@, token_contract@),
            distinct_keys(contract@.balances),
    {
        proof {
            // Both prefixes are a few bytes of ASCII.
            reveal_strlit("s");
            reveal_strlit("user_states");
            assert(vstd::string::is_ascii("s"));
            assert(vstd::string::is_ascii("user_states"));
            vstd::string::is_ascii_spec_bytes("s");
            vstd::string::is_ascii_spec_bytes("user_states");
        }
        StakingContract {
            owner_id,
            token_contract,
            staked_balances: balances_new("s".as_bytes_vec()),
            user_states: states_new("user_states".as_bytes_vec()),
            stake_paused: false,
            lock_duration: 2 * WEEK,
            stake_amount: STAKE_AMOUNT,
            total_staked: 0,
            total_user: 0,
        }
    }

    /// Checks that the call carries one unit and comes from the owner.
    fn check_owner(&self, ctx: &CallContext) -> (result: Result<(), StakeError>)
        ensures
            result == (match self@.owner_error(*ctx) {
                Some(e) => Err::<(), StakeError>(e),
                None => Ok(()),
            }),
    {
        if ctx.attached_deposit != ONE_YOCTO {
            Err(StakeError::DepositRequired)
        } else if ctx.predecessor_account_id != self.owner_id {
            Err(StakeError::NotOwner)
        } else {
            Ok(())
        }
    }

    /// Checks that `account` is in the middle of nothing.
    fn check_idle(&self, account: &String) -> (result: Result<(), StakeError>)
        requires
            storable(account@),
        ensures
            result == (match self@.lock_error(account@) {
                Some(e) => Err::<(), StakeError>(e),
                None => Ok(()),
            }),
    {
        match states_get(&self.user_states, account) {
            None => Ok(()),
            Some(tag) => match UserOperationState::from_tag(tag) {
                Some(UserOperationState::Idle) => Ok(()),
                Some(UserOperationState::Staking) => Err(StakeError::StakingInProgress),
                Some(UserOperationState::Unstaking) => Err(StakeError::UnstakingInProgress),
                None => Err(StakeError::UnknownState),
            },
        }
    }

    /// Pauses deposits, or takes them up again. Only the owner may, with one
    /// unit attached.
    pub fn pause_stake(&mut self, ctx: &CallContext, pause: bool) -> (result: Result<
        (),
        StakeError,
    >)
        ensures
            match result {
                Ok(_) => {
                    &&& old(self)@.owner_error(*ctx) is None
                    &&& final(self)@ == old(self)@.with_pause(pause)
                },
                Err(e) => {
                    &&& old(self)@.owner_error(*ctx) == Some(e)
                    &&& final(self)@ == old(self)@
                },
            },
    {
        match self.check_owner(ctx) {
            Err(e) => Err(e),
            Ok(_) => {
                self.stake_paused = pause;
                Ok(())
            },
        }
    }

    /// Sets the seconds for which a stake stays locked. Only the owner may,
    /// with one unit attached.
    pub fn set_lock_duration(&mut self, ctx: &CallContext, lock_duration: u64) -> (result: Result<
        (),
        StakeError,
    >)
        ensures
            match result {
                Ok(_) => {
                    &&& old(self)@.owner_error(*ctx) is None
                    &&& final(self)@ == old(self)@.with_lock_duration(lock_duration)
                },
                Err(e) => {
                    &&& old(self)@.owner_error(*ctx) == Some(e)
                    &&& final(self)@ == old(self)@
                },
            },
    {
        match self.check_owner(ctx) {
            Err(e) => Err(e),
            Ok(_) => {
                self.lock_duration = lock_duration;
                Ok(())
            },
        }
    }

    /// Hands the contract to `new_owner`, whose name must not be empty. Only
    /// the owner may, with one unit attached. An accepted call returns `true`.
    pub fn update_owner(&mut self, ctx: &CallContext, new_owner: String) -> (result: Result<
        bool,
        StakeError,
    >)
        ensures
            match result {
                Ok(done) => {
                    &&& done
                    &&& old(self)@.update_owner_error(*ctx, new_owner@) is None
                    &&& final(self)@ == old(self)@.with_owner(new_owner@)
                },
                Err(e) => {
                    &&& old(self)@.update_owner_error(*ctx, new_owner@) == Some(e)
                    &&& final(self)@ == old(self)@
                },
            },
    {
        match self.check_owner(ctx) {
            Err(e) => Err(e),
            Ok(_) => {
                if new_owner.as_str().is_empty() {
                    Err(StakeError::EmptyOwner)
                } else {
                    self.owner_id = new_owner;
                    Ok(true)
                }
            },
        }
    }

    /// Sets the balance that a deposit has to reach, which must not be zero.
    /// Only the owner may, with one unit attached.
    pub fn set_stake_amount(&mut self, ctx: &CallContext, stake_amount: u128) -> (result: Result<
        (),
        StakeError,
    >)
        ensures
            match result {
                Ok(_) => {
                    &&& old(self)@.set_stake_amount_error(*ctx, stake_amount) is None
                    &&& final(self)@ == old(self)@.with_stake_amount(stake_amount)
                },
                Err(e) => {
                    &&& old(self)@.set_stake_amount_error(*ctx, stake_amount) == Some(e)
                    &&& final(self)@ == old(self)@
                },
            },
    {
        match self.check_owner(ctx) {
            Err(e) => Err(e),
            Ok(_) => {
                if stake_amount == 0 {
                    Err(StakeError::ZeroStakeAmount)
                } else {
                    self.stake_amount = stake_amount;
                    Ok(())
                }
            },
        }
    }

    /// Takes a transfer of `amount` from `sender_id` as a deposit. The call
    /// has to come from the asset contract. An accepted deposit is kept whole:
    /// the answer is the unused amount, zero. A refused one changes nothing
    /// and the asset goes back to the sender. The memo `msg` is not read.
    ///
    /// The sender's name has to be one that the maps can hold
    /// ([`storable`]). Distinct keys stay distinct.
    pub fn ft_on_transfer(
        &mut self,
        ctx: &CallContext,
        sender_id: String,
        amount: u128,
        msg: String,
    ) -> (result: Result<u128, StakeError>)
        requires
            storable(sender_id@),
        ensures
            distinct_keys(old(self)@.balances) ==> distinct_keys(final(self)@.balances),
            match result {
                Ok(unused) => {
                    &&& unused == 0
                    &&& old(self)@.deposit_error(*ctx, sender_id@, amount) is None
                    &&& final(self)@ == old(self)@.after_deposit(*ctx, sender_id@, amount)
                },
                Err(e) => {
                    &&& old(self)@.deposit_error(*ctx, sender_id@, amount) == Some(e)
                    &&& final(self)@ == old(self)@
                },
            },
    {
        if ctx.predecessor_account_id != self.token_contract {
            return Err(StakeError::WrongToken);
        }
        if self.stake_paused {
            return Err(StakeError::StakePaused);
        }
        match self.check_idle(&sender_id) {
            Err(e) => {
                return Err(e);
            },
            Ok(_) => {},
        }
        let base_amount: u128 = match balances_get(&self.staked_balances, &sender_id) {
            Some(value) => value.0,
            None => 0,
        };
        let new_amount: u128 = match base_amount.checked_add(amount) {
            Some(sum) => sum,
            None => {
                return Err(StakeError::WrongAmount);
            },
        };
        if new_amount != self.stake_amount {
            return Err(StakeError::WrongAmount);
        }
        if base_amount == 0 && self.total_user == u64::MAX {
            return Err(StakeError::Overflow);
        }
        let new_total: u128 = match self.total_staked.checked_add(amount) {
            Some(sum) => sum,
            None => {
                return Err(StakeError::Overflow);
            },
        };
        if base_amount == 0 {
            self.total_user += 1;
        }
        proof {
            if distinct_keys(self@.balances) {
                lemma_put(self@.balances, sender_id@, (new_amount, ctx.seconds()), sender_id@);
            }
        }
        balances_insert(&mut self.staked_balances, &sender_id, &(new_amount, ctx.now()));
        self.total_staked = new_total;
        states_insert(&mut self.user_states, &sender_id, UserOperationState::Idle.to_tag());
        Ok(0)
    }

    /// Begins the withdrawal of the caller's whole principal and returns it.
    /// The record leaves the ledger at once and the caller stays marked until
    /// [`StakingContract::on_ft_transfer_then_remove`] settles the transfer;
    /// the totals change only then. A refused call changes nothing.
    ///
    /// The caller's name has to be one that the maps can hold
    /// ([`storable`]). Distinct keys stay distinct.
    pub fn unstake(&mut self, ctx: &CallContext) -> (result: Result<u128, StakeError>)
        requires
            storable(ctx.predecessor_account_id@),
        ensures
            distinct_keys(old(self)@.balances) ==> distinct_keys(final(self)@.balances),
            match result {
                Ok(amount) => {
                    &&& old(self)@.unstake_error(*ctx) is None
                    &&& amount == old(self)@.staked_amount(ctx.predecessor_account_id@)
                    &&& final(self)@ == old(self)@.after_unstake(*ctx)
                },
                Err(e) => {
                    &&& old(self)@.unstake_error(*ctx) == Some(e)
                    &&& final(self)@ == old(self)@
                },
            },
    {
        if ctx.attached_deposit != ONE_YOCTO {
            return Err(StakeError::DepositRequired);
        }
        let stake: (u128, u64) = match balances_get(
            &self.staked_balances,
            &ctx.predecessor_account_id,
        ) {
            Some(value) => value,
            None => {
                return Err(StakeError::NoStake);
            },
        };
        match self.check_idle(&ctx.predecessor_account_id) {
            Err(e) => {
                return Err(e);
            },
            Ok(_) => {},
        }
        match stake.1.checked_add(self.lock_duration) {
            Some(unlock_time) => {
                if ctx.now() < unlock_time {
                    return Err(StakeError::LockNotElapsed);
                }
            },
            None => {
                return Err(StakeError::LockNotElapsed);
            },
        }
        proof {
            if distinct_keys(self@.balances) {
                lemma_take(
                    self@.balances,
                    ctx.predecessor_account_id@,
                    ctx.predecessor_account_id@,
                );
            }
        }
        balances_remove(&mut self.staked_balances, &ctx.predecessor_account_id);
        states_insert(
            &mut self.user_states,
            &ctx.predecessor_account_id,
            UserOperationState::Unstaking.to_tag(),
        );
        Ok(stake.0)
    }

    /// Settles the withdrawal of `account_id` once its transfer has resolved,
    /// and says whether the transfer was delivered. A delivered transfer
    /// takes `stake_amount` and the account out of the totals. A failed one
    /// puts the record of `stake_amount` and `start_time` back as it was.
    /// Either way the account is idle again.
    ///
    /// This is the second half of [`StakingContract::unstake`] and is to be
    /// called once for each accepted withdrawal, with the principal that the
    /// withdrawal returned: the totals must hold what a delivered transfer
    /// takes out of them. The account's name has to be one that the maps can
    /// hold ([`storable`]). Distinct keys stay distinct.
    pub fn on_ft_transfer_then_remove(
        &mut self,
        account_id: String,
        stake_amount: u128,
        start_time: u64,
        call_result: Result<(), PromiseError>,
    ) -> (delivered: bool)
        requires
            storable(account_id@),
            old(self)@.can_settle(stake_amount, call_result is Ok),
        ensures
            distinct_keys(old(self)@.balances) ==> distinct_keys(final(self)@.balances),
            delivered == (call_result is Ok),
            final(self)@ == old(self)@.after_settlement(
                account_id@,
                stake_amount,
                start_time,
                delivered,
            ),
    {
        match call_result {
            Ok(_) => {
                self.total_staked -= stake_amount;
                self.total_user -= 1;
                states_insert(
                    &mut self.user_states,
                    &account_id,
                    UserOperationState::Idle.to_tag(),
                );
                true
            },
            Err(_) => {
                proof {
                    if distinct_keys(self@.balances) {
                        lemma_put(
                            self@.balances,
                            account_id@,
                            (stake_amount, start_time),
                            account_id@,
                        );
                    }
                }
                balances_insert(
                    &mut self.staked_balances,
                    &account_id,
                    &(stake_amount, start_time),
                );
                states_insert(
                    &mut self.user_states,
                    &account_id,
                    UserOperationState::Idle.to_tag(),
                );
                false
            },
        }
    }

    /// The stake record of `account_id`, if it has one. The name has to be
    /// one that the maps can hold ([`storable`]).
    pub fn get_stake_info(&self, account_id: String) -> (info: Option<StakeInfo>)
        requires
            storable(account_id@),
        ensures
            info == self@.stake_info(account_id@),
    {
        match balances_get(&self.staked_balances, &account_id) {
            Some(value) => Some(StakeInfo { amount: value.0, start_time: value.1 }),
            None => None,
        }
    }

    /// The running total of principal.
    pub fn get_total_stake(&self) -> (total: u128)
        ensures
            total == self@.total_staked,
    {
        self.total_staked
    }

    /// The running count of staking accounts.
    pub fn get_total_user(&self) -> (total: u64)
        ensures
            total == self@.total_user,
    {
        self.total_user
    }

    /// The balance that a deposit has to reach exactly.
    pub fn get_stake_amount(&self) -> (amount: u128)
        ensures
            amount == self@.stake_amount,
    {
        self.stake_amount
    }

    /// The account that may change the parameters.
    pub fn owner(&self) -> (owner: String)
        ensures
            owner@ == self@.owner_id,
    {
        self.owner_id.clone()
    }

    /// The seconds for which a stake stays locked.
    pub fn get_lock_duration(&self) -> (seconds: u64)
        ensures
            seconds == self@.lock_duration,
    {
        self.lock_duration
    }

    /// The stake of `account_id` held against the required amount. An
    /// account without a record has staked nothing since time zero. The name
    /// has to be one that the maps can hold ([`storable`]).
    pub fn user_staked(&self, account_id: String) -> (info: UserStakeInfo)
        requires
            storable(account_id@),
        ensures
            info == self@.user_stake_info(account_id@),
    {
        let mut user_stake_info = UserStakeInfo { staked: false, amount: 0, start_time: 0 };
        match balances_get(&self.staked_balances, &account_id) {
            Some(value) => {
                user_stake_info.staked = value.0 >= self.stake_amount;
                user_stake_info.amount = value.0;
                user_stake_info.start_time = value.1;
            },
            None => {},
        }
        user_stake_info
    }

    /// The records from position `offset` on (from the first where none is
    /// given), at most `limit` of them (50 where none is given), in the order
    /// in which the ledger lists them.
    pub fn search_stake_infos(&self, offset: Option<u64>, limit: Option<u64>) -> (page: Vec<
        (String, StakeInfo),
    >)
        ensures
            page_view(page@) == self@.page(offset, limit),
    {
        let len: u64 = balances_len(&self.staked_balances);
        let first: u64 = offset.unwrap_or(0);
        let count: u64 = limit.unwrap_or(DEFAULT_PAGE_LIMIT);
        let mut page: Vec<(String, StakeInfo)> = Vec::new();
        if first >= len {
            assert(page_view(page@) =~= self@.page(offset, limit));
            return page;
        }
        let end: u64 = if count >= len - first {
            len
        } else {
            first + count
        };
        let mut index: u64 = first;
        while index < end
            invariant
                first <= index <= end <= len,
                len == balance_entries(self.staked_balances).len(),
                page@.len() == index - first,
                forall|i: int|
                    0 <= i < page@.len() ==> (#[trigger] page@[i]).0@ == balance_entries(
                        self.staked_balances,
                    )[first + i].0 && page@[i].1 == stake_record(
                        balance_entries(self.staked_balances)[first + i].1,
                    ),
            decreases end - index,
        {
            let key = balances_key_at(&self.staked_balances, index);
            let value = balances_value_at(&self.staked_balances, index);
            match (key, value) {
                (Some(account), Some(stake)) => {
                    page.push((account, StakeInfo { amount: stake.0, start_time: stake.1 }));
                },
                _ => {
                    assert(false);
                },
            }
            index += 1;
        }
        assert(page_view(page@) =~= self@.page(offset, limit));
        page
    }
}

} // verus!
