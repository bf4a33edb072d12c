//! Staking state machine for unique items.
//!
//! A holder locks an item under a custody authority, leaves it locked for at
//! least the configured freeze period, and earns a flat number of points each
//! time a lock is released. Points are redeemed by a claim.
//!
//! The crate has two layers. The record layer ([`state`], [`instructions`])
//! holds the three persistent records and the transitions on them; each
//! transition takes exactly the records it touches. The engine layer
//! ([`engine`]) keeps all records of a system in keyed tables ([`table`],
//! [`ledger`]) and runs the same transitions against them, maintaining the
//! system-wide invariant that [`model`] states.
pub mod engine;
pub mod error;
pub mod instructions;
pub mod key;
pub mod ledger;
pub mod model;
pub mod state;
pub mod table;

pub use engine::{claim, initialize_config, initialize_user, stake, unstake, Staking};
pub use error::StakeError;
pub use instructions::{
    verify_collection_membership, Collection, CustodyRequest, Stake, Unstake,
};
pub use key::Key;
pub use ledger::LockLedger;
pub use model::{Operation, StakingView};
pub use state::{StakeAccount, StakeConfig, UserAccount};
pub use table::Table;
