//! The ledger as a mathematical value, and what each operation does to it.
//!
//! Every operation of the contract is described here twice over: the error
//! with which it refuses a call, if it does, and the ledger that an accepted
//! call leaves behind.

use crate::entries::{distinct_keys, has_key, positive_amounts, put, take, total_amount, value_of};
use crate::types::{
    CallContext, StakeError, StakeInfo, UserOperationState, UserStakeInfo, DEFAULT_PAGE_LIMIT,
    ONE_YOCTO, STAKE_AMOUNT, WEEK,
};
use vstd::prelude::*;

verus! {

/// The whole state of a staking contract.
pub struct Ledger {
    /// The account that may change the parameters.
    pub owner_id: Seq<char>,
    /// The asset contract whose transfers count as deposits.
    pub token_contract: Seq<char>,
    /// The stake records, in listing order: account, then principal and start time.
    pub balances: Seq<(Seq<char>, (u128, u64))>,
    /// The stored operation state of each account that has one.
    pub states: Map<Seq<char>, u8>,
    /// The balance that a deposit has to reach exactly.
    pub stake_amount: u128,
    /// The seconds for which a stake stays locked.
    pub lock_duration: u64,
    /// Whether deposits are refused.
    pub stake_paused: bool,
    /// The running total of principal.
    pub total_staked: u128,
    /// The running count of staking accounts.
    pub total_user: u64,
}

/// A stored pair read as a stake record.
pub open spec fn stake_record(value: (u128, u64)) -> StakeInfo {
    StakeInfo { amount: value.0, start_time: value.1 }
}

impl Ledger {
    /// The ledger of a new contract: no record, no state, a lock of two weeks
    /// and the default stake.
    pub open spec fn initial(owner_id: Seq<char>, token_contract: Seq<char>) -> Ledger {
        Ledger {
            owner_id,
            token_contract,
            balances: Seq::empty(),
            states: Map::empty(),
            stake_amount: STAKE_AMOUNT,
            lock_duration: (2 * WEEK) as u64,
            stake_paused: false,
            total_staked: 0,
            total_user: 0,
        }
    }

    /// The stake record of `account`, if it has one.
    pub open spec fn stake_info(self, account: Seq<char>) -> Option<StakeInfo> {
        match value_of(self.balances, account) {
            Some(value) => Some(stake_record(value)),
            None => None,
        }
    }

    /// The principal recorded for `account`, zero without a record.
    pub open spec fn staked_amount(self, account: Seq<char>) -> u128 {
        match value_of(self.balances, account) {
            Some(value) => value.0,
            None => 0,
        }
    }

    /// The stake of `account` held against the required amount.
    pub open spec fn user_stake_info(self, account: Seq<char>) -> UserStakeInfo {
        match value_of(self.balances, account) {
            Some(value) => UserStakeInfo {
                staked: value.0 >= self.stake_amount,
                amount: value.0,
                start_time: value.1,
            },
            None => UserStakeInfo { staked: false, amount: 0, start_time: 0 },
        }
    }

    /// What `account` is in the middle of. An account without a stored state
    /// is idle; `None` stands for a stored byte that is no state.
    pub open spec fn operation_state(self, account: Seq<char>) -> Option<UserOperationState> {
        if self.states.contains_key(account) {
            UserOperationState::of_tag(self.states[account])
        } else {
            Some(UserOperationState::Idle)
        }
    }

    /// Why `account` cannot begin an operation now, if it cannot.
    pub open spec fn lock_error(self, account: Seq<char>) -> Option<StakeError> {
        match self.operation_state(account) {
            Some(UserOperationState::Idle) => None,
            Some(UserOperationState::Staking) => Some(StakeError::StakingInProgress),
            Some(UserOperationState::Unstaking) => Some(StakeError::UnstakingInProgress),
            None => Some(StakeError::UnknownState),
        }
    }

    /// Why the call is no owner's call, if it is none: it carries no deposit
    /// of one unit, or another account made it.
    pub open spec fn owner_error(self, ctx: CallContext) -> Option<StakeError> {
        if ctx.attached_deposit != ONE_YOCTO {
            Some(StakeError::DepositRequired)
        } else if ctx.predecessor_account_id@ != self.owner_id {
            Some(StakeError::NotOwner)
        } else {
            None
        }
    }

    /// The ledger with deposits paused or resumed.
    pub open spec fn with_pause(self, pause: bool) -> Ledger {
        Ledger { stake_paused: pause, ..self }
    }

    /// The ledger with another lock duration.
    pub open spec fn with_lock_duration(self, lock_duration: u64) -> Ledger {
        Ledger { lock_duration, ..self }
    }

    /// Why the owner cannot be replaced by `new_owner`, if it cannot.
    pub open spec fn update_owner_error(self, ctx: CallContext, new_owner: Seq<char>) -> Option<
        StakeError,
    > {
        if self.owner_error(ctx) is Some {
            self.owner_error(ctx)
        } else if new_owner.len() == 0 {
            Some(StakeError::EmptyOwner)
        } else {
            None
        }
    }

    /// The ledger in the hands of `new_owner`.
    pub open spec fn with_owner(self, new_owner: Seq<char>) -> Ledger {
        Ledger { owner_id: new_owner, ..self }
    }

    /// Why the required stake cannot become `stake_amount`, if it cannot.
    pub open spec fn set_stake_amount_error(self, ctx: CallContext, stake_amount: u128) -> Option<
        StakeError,
    > {
        if self.owner_error(ctx) is Some {
            self.owner_error(ctx)
        } else if stake_amount == 0 {
            Some(StakeError::ZeroStakeAmount)
        } else {
            None
        }
    }

    /// The ledger with another required stake.
    pub open spec fn with_stake_amount(self, stake_amount: u128) -> Ledger {
        Ledger { stake_amount, ..self }
    }

    /// Why a deposit of `amount` for `sender` is refused, if it is. The checks
    /// come in this order: the caller is the asset contract, deposits are not
    /// paused, the sender is idle, the balance lands exactly on the required
    /// stake, and both totals stay within their counters.
    pub open spec fn deposit_error(self, ctx: CallContext, sender: Seq<char>, amount: u128) -> Option<
        StakeError,
    > {
        if ctx.predecessor_account_id@ != self.token_contract {
            Some(StakeError::WrongToken)
        } else if self.stake_paused {
            Some(StakeError::StakePaused)
        } else if self.lock_error(sender) is Some {
            self.lock_error(sender)
        } else if self.staked_amount(sender) + amount != self.stake_amount {
            Some(StakeError::WrongAmount)
        } else if self.staked_amount(sender) == 0 && self.total_user == u64::MAX {
            Some(StakeError::Overflow)
        } else if self.total_staked + amount > u128::MAX {
            Some(StakeError::Overflow)
        } else {
            None
        }
    }

    /// The ledger after an accepted deposit: the sender's record holds the
    /// required stake from the time of the call on, the totals have grown by
    /// the deposit, and the sender is idle.
    pub open spec fn after_deposit(self, ctx: CallContext, sender: Seq<char>, amount: u128) -> Ledger {
        Ledger {
            balances: put(self.balances, sender, (self.stake_amount, ctx.seconds())),
            states: self.states.insert(sender, UserOperationState::Idle.tag()),
            total_staked: (self.total_staked + amount) as u128,
            total_user: if self.staked_amount(sender) == 0 {
                (self.total_user + 1) as u64
            } else {
                self.total_user
            },
            ..self
        }
    }

    /// Why the caller cannot withdraw now, if it cannot. The checks come in
    /// this order: the call carries one unit, the caller has a record, the
    /// caller is idle, and the lock has run out.
    pub open spec fn unstake_error(self, ctx: CallContext) -> Option<StakeError> {
        let caller = ctx.predecessor_account_id@;
        if ctx.attached_deposit != ONE_YOCTO {
            Some(StakeError::DepositRequired)
        } else if self.stake_info(caller) is None {
            Some(StakeError::NoStake)
        } else if self.lock_error(caller) is Some {
            self.lock_error(caller)
        } else if ctx.seconds() < self.stake_info(caller).unwrap().start_time + self.lock_duration {
            Some(StakeError::LockNotElapsed)
        } else {
            None
        }
    }

    /// The ledger while the caller's withdrawal is in flight: the record is
    /// gone, the caller is marked, the totals still count the principal.
    pub open spec fn after_unstake(self, ctx: CallContext) -> Ledger {
        Ledger {
            balances: take(self.balances, ctx.predecessor_account_id@),
            states: self.states.insert(
                ctx.predecessor_account_id@,
                UserOperationState::Unstaking.tag(),
            ),
            ..self
        }
    }

    /// Whether the totals can give up what a delivered transfer took out.
    pub open spec fn can_settle(self, amount: u128, delivered: bool) -> bool {
        delivered ==> amount <= self.total_staked && self.total_user >= 1
    }

    /// The ledger after the transfer of a withdrawal has settled. A delivered
    /// transfer takes the principal and the account out of the totals; a
    /// failed one puts the record back. Either way the account is idle again.
    pub open spec fn after_settlement(
        self,
        account: Seq<char>,
        amount: u128,
        start_time: u64,
        delivered: bool,
    ) -> Ledger {
        if delivered {
            Ledger {
                states: self.states.insert(account, UserOperationState::Idle.tag()),
                total_staked: (self.total_staked - amount) as u128,
                total_user: (self.total_user - 1) as u64,
                ..self
            }
        } else {
            Ledger {
                balances: put(self.balances, account, (amount, start_time)),
                states: self.states.insert(account, UserOperationState::Idle.tag()),
                ..self
            }
        }
    }

    /// The position at which a page with this offset begins.
    pub open spec fn page_start(self, offset: Option<u64>) -> int {
        let start = offset.unwrap_or(0);
        if start <= self.balances.len() {
            start as int
        } else {
            self.balances.len() as int
        }
    }

    /// The position before which a page with this offset and limit ends.
    pub open spec fn page_end(self, offset: Option<u64>, limit: Option<u64>) -> int {
        let end = self.page_start(offset) + limit.unwrap_or(DEFAULT_PAGE_LIMIT);
        if end <= self.balances.len() {
            end
        } else {
            self.balances.len() as int
        }
    }

    /// The records from `offset` on, at most `limit` of them (50 where none
    /// is given), in listing order.
    pub open spec fn page(self, offset: Option<u64>, limit: Option<u64>) -> Seq<
        (Seq<char>, StakeInfo),
    > {
        Seq::new(
            (self.page_end(offset, limit) - self.page_start(offset)) as nat,
            |i: int|
                (
                    self.balances[self.page_start(offset) + i].0,
                    stake_record(self.balances[self.page_start(offset) + i].1),
                ),
        )
    }

    /// The ledger accounts for every unit of principal: with the withdrawals
    /// `in_flight` (account, principal, start time of each record that was
    /// taken out and has not settled), the totals are the sums over the
    /// records and the withdrawals together.
    ///
    /// With nothing in flight this says that `total_staked` is the sum of all
    /// recorded principals and `total_user` the number of records.
    pub open spec fn consistent(self, in_flight: Seq<(Seq<char>, (u128, u64))>) -> bool {
        &&& distinct_keys(self.balances)
        &&& distinct_keys(in_flight)
        &&& positive_amounts(self.balances)
        &&& positive_amounts(in_flight)
        &&& self.stake_amount > 0
        &&& forall|i: int|
            0 <= i < in_flight.len() ==> {
                &&& !has_key(self.balances, (#[trigger] in_flight[i]).0)
                &&& self.operation_state(in_flight[i].0) == Some(UserOperationState::Unstaking)
            }
        &&& self.total_staked == total_amount(self.balances) + total_amount(in_flight)
        &&& self.total_user == self.balances.len() + in_flight.len()
    }
}

} // verus!
