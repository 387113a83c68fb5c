//! What holds of every ledger, proved from the model.
//!
//! The operations of a [`crate::StakingContract`] are specified through the
//! functions of [`Ledger`]; each law here is stated over those functions.
//! Where a law speaks of withdrawals in flight, it lists them as a sequence of
//! the records that were taken out and have not settled yet.

use crate::entries::{
    distinct_keys, has_key, index_of, lemma_index_of, lemma_put, lemma_put_keeps_positive,
    lemma_take, lemma_take_keeps_positive,
    lemma_total_amount_bounds, lemma_total_amount_nonnegative, lemma_total_amount_push,
    lemma_total_amount_remove, lemma_total_amount_swap_remove, lemma_total_amount_update,
    positive_amounts, take, total_amount, value_of,
};
use crate::model::{stake_record, Ledger};
use crate::types::{
    CallContext, StakeError, StakeInfo, UserOperationState, UserStakeInfo, DEFAULT_PAGE_LIMIT,
    ONE_YOCTO,
};
use vstd::prelude::*;

verus! {

/// An account is in the middle of one operation at most, and a second one
/// cannot begin before the first is over: no deposit is accepted for an
/// account that is staking or has a withdrawal in flight, and no withdrawal
/// for one that is staking or already withdrawing. An accepted deposit leaves
/// its sender idle, an accepted withdrawal leaves the caller withdrawing, and
/// a settlement leaves the account idle. No operation touches the state of
/// another account.
pub proof fn lemma_operations_exclude_each_other(
    ledger: Ledger,
    ctx: CallContext,
    sender: Seq<char>,
    amount: u128,
    start_time: u64,
    delivered: bool,
    other: Seq<char>,
)
    ensures
        ledger.operation_state(sender) != Some(UserOperationState::Idle) ==> ledger.deposit_error(
            ctx,
            sender,
            amount,
        ) is Some,
        ledger.operation_state(ctx.predecessor_account_id@) != Some(UserOperationState::Idle)
            ==> ledger.unstake_error(ctx) is Some,
        ledger.after_deposit(ctx, sender, amount).operation_state(sender) == Some(
            UserOperationState::Idle,
        ),
        ledger.after_unstake(ctx).operation_state(ctx.predecessor_account_id@) == Some(
            UserOperationState::Unstaking,
        ),
        ledger.after_settlement(sender, amount, start_time, delivered).operation_state(sender)
            == Some(UserOperationState::Idle),
        other != sender ==> ledger.after_deposit(ctx, sender, amount).operation_state(other)
            == ledger.operation_state(other),
        other != ctx.predecessor_account_id@ ==> ledger.after_unstake(ctx).operation_state(other)
            == ledger.operation_state(other),
        other != sender ==> ledger.after_settlement(
            sender,
            amount,
            start_time,
            delivered,
        ).operation_state(other) == ledger.operation_state(other),
{
}

/// A deposit that the asset contract announces for an idle account, while
/// deposits are not paused, is accepted exactly when it brings the account's
/// balance to the required stake (and the totals have room for it). The
/// record then holds the required stake, and the total of principal has grown
/// by the deposit.
pub proof fn lemma_deposit_lands_on_stake_amount(
    ledger: Ledger,
    ctx: CallContext,
    sender: Seq<char>,
    amount: u128,
)
    requires
        distinct_keys(ledger.balances),
        ctx.predecessor_account_id@ == ledger.token_contract,
        !ledger.stake_paused,
        ledger.operation_state(sender) == Some(UserOperationState::Idle),
    ensures
        ledger.staked_amount(sender) + amount != ledger.stake_amount ==> ledger.deposit_error(
            ctx,
            sender,
            amount,
        ) == Some(StakeError::WrongAmount),
        ledger.deposit_error(ctx, sender, amount) is None ==> {
            &&& ledger.staked_amount(sender) + amount == ledger.stake_amount
            &&& ledger.after_deposit(ctx, sender, amount).stake_info(sender) == Some(
                StakeInfo { amount: ledger.stake_amount, start_time: ctx.seconds() },
            )
            &&& ledger.after_deposit(ctx, sender, amount).total_staked == ledger.total_staked
                + amount
        },
        ledger.staked_amount(sender) + amount == ledger.stake_amount && ledger.total_staked
            + amount <= u128::MAX && ledger.total_user < u64::MAX ==> ledger.deposit_error(
            ctx,
            sender,
            amount,
        ) is None,
{
    lemma_put(ledger.balances, sender, (ledger.stake_amount, ctx.seconds()), sender);
}

/// The lock decides a withdrawal that nothing else stands against: it is
/// accepted from the second `start_time + lock_duration` on, and refused as
/// too early at every second before.
pub proof fn lemma_lock_timing(ledger: Ledger, ctx: CallContext)
    requires
        ctx.attached_deposit == ONE_YOCTO,
        ledger.stake_info(ctx.predecessor_account_id@) is Some,
        ledger.operation_state(ctx.predecessor_account_id@) == Some(UserOperationState::Idle),
    ensures
        ctx.seconds() >= ledger.stake_info(ctx.predecessor_account_id@).unwrap().start_time
            + ledger.lock_duration ==> ledger.unstake_error(ctx) is None,
        ctx.seconds() < ledger.stake_info(ctx.predecessor_account_id@).unwrap().start_time
            + ledger.lock_duration ==> ledger.unstake_error(ctx) == Some(
            StakeError::LockNotElapsed,
        ),
{
}

/// A withdrawal whose transfer is delivered: while it is in flight the record
/// is gone, the caller is marked and the totals stand; the settlement then
/// takes the principal and the account out of the totals and leaves the
/// caller idle and without a record. The records of all other accounts are
/// what they were.
pub proof fn lemma_commit_path(
    ledger: Ledger,
    in_flight: Seq<(Seq<char>, (u128, u64))>,
    ctx: CallContext,
    other: Seq<char>,
)
    requires
        ledger.consistent(in_flight),
        ledger.unstake_error(ctx) is None,
    ensures
        ({
            let caller = ctx.predecessor_account_id@;
            let stake = ledger.stake_info(caller).unwrap();
            let pending = ledger.after_unstake(ctx);
            let settled = pending.after_settlement(caller, stake.amount, stake.start_time, true);
            &&& pending.stake_info(caller) is None
            &&& pending.operation_state(caller) == Some(UserOperationState::Unstaking)
            &&& pending.total_staked == ledger.total_staked
            &&& pending.total_user == ledger.total_user
            &&& pending.can_settle(stake.amount, true)
            &&& settled.total_staked == ledger.total_staked - stake.amount
            &&& settled.total_user == ledger.total_user - 1
            &&& settled.operation_state(caller) == Some(UserOperationState::Idle)
            &&& settled.stake_info(caller) is None
            &&& other != caller ==> settled.stake_info(other) == ledger.stake_info(other)
        }),
{
    let caller = ctx.predecessor_account_id@;
    lemma_take(ledger.balances, caller, caller);
    lemma_take(ledger.balances, caller, other);
    let at = index_of(ledger.balances, caller);
    assert(0 <= at < ledger.balances.len() && ledger.balances[at].0 == caller);
    lemma_total_amount_bounds(ledger.balances, at);
    lemma_total_amount_nonnegative(in_flight);
}

/// A withdrawal whose transfer fails: the settlement puts the record back as
/// it was, so that every account has the record it had before the
/// withdrawal, the totals are what they were, and the caller is idle.
pub proof fn lemma_rollback_path(
    ledger: Ledger,
    in_flight: Seq<(Seq<char>, (u128, u64))>,
    ctx: CallContext,
    other: Seq<char>,
)
    requires
        ledger.consistent(in_flight),
        ledger.unstake_error(ctx) is None,
    ensures
        ({
            let caller = ctx.predecessor_account_id@;
            let stake = ledger.stake_info(caller).unwrap();
            let settled = ledger.after_unstake(ctx).after_settlement(
                caller,
                stake.amount,
                stake.start_time,
                false,
            );
            &&& settled.stake_info(other) == ledger.stake_info(other)
            &&& settled.total_staked == ledger.total_staked
            &&& settled.total_user == ledger.total_user
            &&& settled.operation_state(caller) == Some(UserOperationState::Idle)
            &&& settled.balances.len() == ledger.balances.len()
        }),
{
    let caller = ctx.predecessor_account_id@;
    let value = value_of(ledger.balances, caller).unwrap();
    let taken = take(ledger.balances, caller);
    lemma_take(ledger.balances, caller, caller);
    lemma_take(ledger.balances, caller, other);
    lemma_put(taken, caller, value, other);
    lemma_put(taken, caller, value, caller);
}

/// An account without a record has no stake to show: the query for its
/// record finds none, and its stake reads as not staked, zero, from zero.
/// This is so for every account of a new ledger.
pub proof fn lemma_account_without_record(
    ledger: Ledger,
    account: Seq<char>,
    owner_id: Seq<char>,
    token_contract: Seq<char>,
)
    ensures
        !has_key(ledger.balances, account) ==> ledger.stake_info(account) is None
            && ledger.user_stake_info(account) == (UserStakeInfo {
            staked: false,
            amount: 0,
            start_time: 0,
        }),
        !has_key(Ledger::initial(owner_id, token_contract).balances, account),
{
}

/// Pages are cut from one listing: a page holds the records at the positions
/// from its offset on, a page from beyond the last record is empty, and a
/// page followed by the page that begins where it ends is the page of both
/// limits together.
pub proof fn lemma_pages_follow_the_listing(ledger: Ledger, offset: u64, first: u64, second: u64)
    requires
        offset + first <= u64::MAX,
        first + second <= u64::MAX,
    ensures
        ledger.page(None, None) == ledger.page(Some(0), Some(DEFAULT_PAGE_LIMIT)),
        offset >= ledger.balances.len() ==> ledger.page(Some(offset), Some(first)).len() == 0,
        offset <= ledger.balances.len() ==> ledger.page(Some(offset), Some(first)).len() == (if first
            <= ledger.balances.len() - offset {
            first as int
        } else {
            ledger.balances.len() - offset
        }),
        forall|i: int|
            0 <= i < ledger.page(Some(offset), Some(first)).len() ==> (#[trigger] ledger.page(
                Some(offset),
                Some(first),
            )[i]) == (ledger.balances[offset + i].0, stake_record(ledger.balances[offset + i].1)),
        ledger.page(Some(offset), Some(first)) + ledger.page(
            Some((offset + first) as u64),
            Some(second),
        ) == ledger.page(Some(offset), Some((first + second) as u64)),
{
    assert(ledger.page(None, None) =~= ledger.page(Some(0), Some(DEFAULT_PAGE_LIMIT)));
    assert(ledger.page(Some(offset), Some(first)) + ledger.page(
        Some((offset + first) as u64),
        Some(second),
    ) =~= ledger.page(Some(offset), Some((first + second) as u64)));
}

/// A new ledger accounts for every unit: it holds nothing and counts nothing.
pub proof fn lemma_initial_is_consistent(owner_id: Seq<char>, token_contract: Seq<char>)
    ensures
        Ledger::initial(owner_id, token_contract).consistent(Seq::empty()),
{
    let ledger = Ledger::initial(owner_id, token_contract);
    assert(total_amount(ledger.balances) == 0);
    assert(total_amount(Seq::<(Seq<char>, (u128, u64))>::empty()) == 0);
}

/// With no withdrawal in flight, the totals of a consistent ledger are the
/// sum of all recorded principals and the number of records.
pub proof fn lemma_totals_match_records(ledger: Ledger)
    requires
        ledger.consistent(Seq::empty()),
    ensures
        ledger.total_staked == total_amount(ledger.balances),
        ledger.total_user == ledger.balances.len(),
{
    assert(total_amount(Seq::<(Seq<char>, (u128, u64))>::empty()) == 0);
}

/// The owner's operations leave a consistent ledger consistent, as long as
/// the required stake stays above zero.
pub proof fn lemma_parameters_keep_consistency(
    ledger: Ledger,
    in_flight: Seq<(Seq<char>, (u128, u64))>,
    pause: bool,
    lock_duration: u64,
    new_owner: Seq<char>,
    stake_amount: u128,
)
    requires
        ledger.consistent(in_flight),
    ensures
        ledger.with_pause(pause).consistent(in_flight),
        ledger.with_lock_duration(lock_duration).consistent(in_flight),
        ledger.with_owner(new_owner).consistent(in_flight),
        stake_amount > 0 ==> ledger.with_stake_amount(stake_amount).consistent(in_flight),
{
    let paused = ledger.with_pause(pause);
    let relocked = ledger.with_lock_duration(lock_duration);
    let handed = ledger.with_owner(new_owner);
    let restaked = ledger.with_stake_amount(stake_amount);
    assert forall|i: int| 0 <= i < in_flight.len() implies {
        &&& paused.operation_state((#[trigger] in_flight[i]).0) == Some(
            UserOperationState::Unstaking,
        )
        &&& relocked.operation_state(in_flight[i].0) == Some(UserOperationState::Unstaking)
        &&& handed.operation_state(in_flight[i].0) == Some(UserOperationState::Unstaking)
        &&& restaked.operation_state(in_flight[i].0) == Some(UserOperationState::Unstaking)
    } by {}
}

/// An accepted deposit leaves a consistent ledger consistent, with the same
/// withdrawals in flight.
pub proof fn lemma_deposit_keeps_consistency(
    ledger: Ledger,
    in_flight: Seq<(Seq<char>, (u128, u64))>,
    ctx: CallContext,
    sender: Seq<char>,
    amount: u128,
)
    requires
        ledger.consistent(in_flight),
        ledger.deposit_error(ctx, sender, amount) is None,
    ensures
        ledger.after_deposit(ctx, sender, amount).consistent(in_flight),
{
    let after = ledger.after_deposit(ctx, sender, amount);
    let value = (ledger.stake_amount, ctx.seconds());
    lemma_put(ledger.balances, sender, value, sender);
    assert forall|i: int| 0 <= i < in_flight.len() implies {
        &&& !has_key(after.balances, (#[trigger] in_flight[i]).0)
        &&& after.operation_state(in_flight[i].0) == Some(UserOperationState::Unstaking)
    } by {
        lemma_put(ledger.balances, sender, value, in_flight[i].0);
    }
    lemma_put_keeps_positive(ledger.balances, sender, value);
    if has_key(ledger.balances, sender) {
        let at = index_of(ledger.balances, sender);
        assert(0 <= at < ledger.balances.len() && ledger.balances[at].0 == sender);
        lemma_index_of(ledger.balances, at);
        lemma_total_amount_update(ledger.balances, at, (sender, value));
    } else {
        lemma_total_amount_push(ledger.balances, (sender, value));
    }
}

/// An accepted withdrawal leaves a consistent ledger consistent, with the
/// caller's record added to the withdrawals in flight.
pub proof fn lemma_unstake_keeps_consistency(
    ledger: Ledger,
    in_flight: Seq<(Seq<char>, (u128, u64))>,
    ctx: CallContext,
)
    requires
        ledger.consistent(in_flight),
        ledger.unstake_error(ctx) is None,
    ensures
        ledger.after_unstake(ctx).consistent(
            in_flight.push(
                (
                    ctx.predecessor_account_id@,
                    value_of(ledger.balances, ctx.predecessor_account_id@).unwrap(),
                ),
            ),
        ),
{
    let caller = ctx.predecessor_account_id@;
    let after = ledger.after_unstake(ctx);
    let at = index_of(ledger.balances, caller);
    assert(0 <= at < ledger.balances.len() && ledger.balances[at].0 == caller);
    lemma_index_of(ledger.balances, at);
    let value = ledger.balances[at].1;
    let flying = in_flight.push((caller, value));
    lemma_take(ledger.balances, caller, caller);
    lemma_total_amount_swap_remove(ledger.balances, at);
    lemma_total_amount_push(in_flight, (caller, value));
    lemma_take_keeps_positive(ledger.balances, caller);
    assert(value.0 > 0);
    assert(positive_amounts(flying)) by {
        assert forall|i: int| 0 <= i < flying.len() implies (#[trigger] flying[i]).1.0 > 0 by {
            if i < in_flight.len() {
                assert(in_flight[i].1.0 > 0);
            }
        }
    }
    assert(distinct_keys(flying)) by {
        assert forall|i: int, j: int| 0 <= i < j < flying.len() implies (#[trigger] flying[i]).0
            != (#[trigger] flying[j]).0 by {
            if j < in_flight.len() {
                assert(in_flight[i].0 != in_flight[j].0);
            } else {
                // The caller was idle, and every account in flight is marked.
                assert(ledger.operation_state(in_flight[i].0) == Some(
                    UserOperationState::Unstaking,
                ));
            }
        }
    }
    assert forall|i: int| 0 <= i < flying.len() implies {
        &&& !has_key(after.balances, (#[trigger] flying[i]).0)
        &&& after.operation_state(flying[i].0) == Some(UserOperationState::Unstaking)
    } by {
        lemma_take(ledger.balances, caller, flying[i].0);
        if i < in_flight.len() {
            assert(ledger.operation_state(in_flight[i].0) == Some(UserOperationState::Unstaking));
            assert(!has_key(ledger.balances, in_flight[i].0));
        }
    }
}

/// The settlement of a withdrawal in flight finds the totals large enough
/// for it, and leaves a consistent ledger consistent with that withdrawal no
/// longer in flight, whether the transfer was delivered or not.
pub proof fn lemma_settlement_keeps_consistency(
    ledger: Ledger,
    in_flight: Seq<(Seq<char>, (u128, u64))>,
    index: int,
    delivered: bool,
)
    requires
        ledger.consistent(in_flight),
        0 <= index < in_flight.len(),
    ensures
        ledger.can_settle(in_flight[index].1.0, delivered),
        ledger.after_settlement(
            in_flight[index].0,
            in_flight[index].1.0,
            in_flight[index].1.1,
            delivered,
        ).consistent(in_flight.remove(index)),
{
    let account = in_flight[index].0;
    let value = in_flight[index].1;
    let after = ledger.after_settlement(account, value.0, value.1, delivered);
    let flying = in_flight.remove(index);
    lemma_total_amount_bounds(in_flight, index);
    lemma_total_amount_nonnegative(ledger.balances);
    lemma_total_amount_remove(in_flight, index);
    assert(in_flight[index].1.0 > 0);
    assert(!has_key(ledger.balances, account));
    assert forall|i: int| 0 <= i < flying.len() implies (#[trigger] flying[i]) == in_flight[if i
        < index {
        i
    } else {
        i + 1
    }] by {}
    assert(distinct_keys(flying)) by {
        assert forall|i: int, j: int| 0 <= i < j < flying.len() implies (#[trigger] flying[i]).0
            != (#[trigger] flying[j]).0 by {
            let from_i = if i < index {
                i
            } else {
                i + 1
            };
            let from_j = if j < index {
                j
            } else {
                j + 1
            };
            assert(in_flight[from_i].0 != in_flight[from_j].0);
        }
    }
    assert(positive_amounts(flying)) by {
        assert forall|i: int| 0 <= i < flying.len() implies (#[trigger] flying[i]).1.0 > 0 by {
            let from = if i < index {
                i
            } else {
                i + 1
            };
            assert(in_flight[from].1.0 > 0);
        }
    }
    if !delivered {
        lemma_put(ledger.balances, account, value, account);
        lemma_total_amount_push(ledger.balances, (account, value));
        lemma_put_keeps_positive(ledger.balances, account, value);
    }
    assert forall|i: int| 0 <= i < flying.len() implies {
        &&& !has_key(after.balances, (#[trigger] flying[i]).0)
        &&& after.operation_state(flying[i].0) == Some(UserOperationState::Unstaking)
    } by {
        let from = if i < index {
            i
        } else {
            i + 1
        };
        assert(flying[i] == in_flight[from]);
        if from < index {
            assert(in_flight[from].0 != in_flight[index].0);
        } else {
            assert(in_flight[index].0 != in_flight[from].0);
        }
        assert(!has_key(ledger.balances, in_flight[from].0));
        assert(ledger.operation_state(in_flight[from].0) == Some(UserOperationState::Unstaking));
        if !delivered {
            lemma_put(ledger.balances, account, value, flying[i].0);
        }
    }
}

} // verus!
