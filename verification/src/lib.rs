//! A single-asset staking ledger with asynchronous settlement.
//!
//! Each account locks one principal at a time. A deposit is accepted only when
//! it brings the account's balance exactly to the required stake; a withdrawal
//! removes the record at once, and the outcome of the asset transfer that
//! follows either commits the withdrawal or puts the record back.
//!
//! The balances and the per-account operation states live in two
//! [`near_sdk::collections::UnorderedMap`]s. What the maps do is taken on
//! trust from their crate (module [`store`]); everything built on them is
//! verified against the mathematical model in [`model`], and what holds of
//! every such model is proved in [`laws`].

pub mod contract;
pub mod entries;
pub mod laws;
pub mod model;
pub mod store;
pub mod types;

pub use contract::StakingContract;
pub use types::{
    is_storable, CallContext, StakeError, StakeInfo, UserOperationState, UserStakeInfo,
};
