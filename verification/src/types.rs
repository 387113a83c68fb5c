//! The plain values that the ledger takes and returns.

use vstd::prelude::*;

verus! {

/// Seconds in one week.
pub const WEEK: u64 = 604_800;

/// The stake that a new ledger requires: 100 tokens of 18 decimals.
pub const STAKE_AMOUNT: u128 = 100_000_000_000_000_000_000;

/// Nanoseconds in one second.
pub const NANOSECONDS: u64 = 1_000_000_000;

/// The page size of a listing that names none.
pub const DEFAULT_PAGE_LIMIT: u64 = 50;

/// The attached deposit that marks a call as deliberate.
pub const ONE_YOCTO: u128 = 1;

/// The most characters that the name of an account has.
pub const MAX_ACCOUNT_ID_LEN: usize = 64;

/// The most bytes that the storage prefix of a map has.
pub const MAX_PREFIX_LEN: usize = 64;

/// Whether the maps can hold `name` as a key. A key is stored under the
/// map's prefix and the name's bytes, and the host takes no storage key
/// above 2048 bytes; a name of an account is far shorter.
pub open spec fn storable(name: Seq<char>) -> bool {
    name.len() <= MAX_ACCOUNT_ID_LEN
}

/// Tests whether the maps can hold `name` as a key.
pub fn is_storable(name: &String) -> (fits: bool)
    ensures
        fits == storable(name@),
{
    name.as_str().unicode_len() <= MAX_ACCOUNT_ID_LEN
}

/// What a call brings with it besides its arguments.
pub struct CallContext {
    /// The account that made the call.
    pub predecessor_account_id: String,
    /// The deposit attached to the call, in the smallest unit.
    pub attached_deposit: u128,
    /// The time of the block, in nanoseconds since the epoch.
    pub block_timestamp: u64,
}

impl CallContext {
    /// The time of the call in whole seconds.
    pub open spec fn seconds(self) -> u64 {
        self.block_timestamp / NANOSECONDS
    }

    /// The time of the call in whole seconds.
    pub fn now(&self) -> (t: u64)
        ensures
            t == self.seconds(),
    {
        self.block_timestamp / NANOSECONDS
    }
}

/// The principal that an account has locked, and when the lock began.
#[derive(Clone, Copy, Debug, PartialEq, Eq, Structural)]
pub struct StakeInfo {
    /// The principal under lock.
    pub amount: u128,
    /// The second at which the last deposit completed.
    pub start_time: u64,
}

/// An account's stake as seen against the required amount.
#[derive(Clone, Copy, Debug, PartialEq, Eq, Structural)]
pub struct UserStakeInfo {
    /// Whether the recorded principal reaches the required stake.
    pub staked: bool,
    /// The recorded principal, zero for an account without a record.
    pub amount: u128,
    /// The start of the lock, zero for an account without a record.
    pub start_time: u64,
}

/// What an account is in the middle of.
#[derive(Clone, Copy, Debug, PartialEq, Eq, Structural)]
pub enum UserOperationState {
    /// Nothing: a deposit or a withdrawal may begin.
    Idle,
    /// A deposit is being handled.
    Staking,
    /// A withdrawal waits for its transfer to settle.
    Unstaking,
}

impl UserOperationState {
    /// The byte under which the state is stored.
    pub open spec fn tag(self) -> u8 {
        match self {
            UserOperationState::Idle => 0,
            UserOperationState::Staking => 1,
            UserOperationState::Unstaking => 2,
        }
    }

    /// The state that a stored byte stands for, if any.
    pub open spec fn of_tag(tag: u8) -> Option<UserOperationState> {
        if tag == 0 {
            Some(UserOperationState::Idle)
        } else if tag == 1 {
            Some(UserOperationState::Staking)
        } else if tag == 2 {
            Some(UserOperationState::Unstaking)
        } else {
            None
        }
    }

    /// The byte under which the state is stored.
    pub fn to_tag(self) -> (tag: u8)
        ensures
            tag == self.tag(),
            UserOperationState::of_tag(tag) == Some(self),
    {
        match self {
            UserOperationState::Idle => 0,
            UserOperationState::Staking => 1,
            UserOperationState::Unstaking => 2,
        }
    }

    /// Reads a stored byte back; `None` for a byte that no state is stored as.
    pub fn from_tag(tag: u8) -> (state: Option<UserOperationState>)
        ensures
            state == UserOperationState::of_tag(tag),
    {
        if tag == 0 {
            Some(UserOperationState::Idle)
        } else if tag == 1 {
            Some(UserOperationState::Staking)
        } else if tag == 2 {
            Some(UserOperationState::Unstaking)
        } else {
            None
        }
    }
}

/// Why the ledger refused a call. A refused call changes nothing.
#[derive(Clone, Copy, Debug, PartialEq, Eq, Structural)]
pub enum StakeError {
    /// The call did not carry a deposit of exactly one unit.
    DepositRequired,
    /// An owner's operation was called by another account.
    NotOwner,
    /// A deposit was announced by an account other than the asset contract.
    WrongToken,
    /// The new owner's name is empty.
    EmptyOwner,
    /// The required stake would become zero.
    ZeroStakeAmount,
    /// Deposits are paused.
    StakePaused,
    /// The account is in the middle of a deposit.
    StakingInProgress,
    /// The account has a withdrawal in flight.
    UnstakingInProgress,
    /// The stored operation state of the account is not one of the three states.
    UnknownState,
    /// The deposit does not bring the balance exactly to the required stake.
    WrongAmount,
    /// The account has no stake record.
    NoStake,
    /// The lock has not run out yet.
    LockNotElapsed,
    /// A total would leave the range of its counter.
    Overflow,
}

} // verus!
