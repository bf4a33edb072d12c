//! Failures of the staking operations.
use vstd::prelude::*;

verus! {

/// Why an operation was refused. A refused operation changes nothing.
#[derive(Clone, Copy, Debug, PartialEq, Eq, Structural)]
pub enum StakeError {
    /// The holder already has as many items locked as the configuration allows.
    MaxLocksReached,
    /// The item has not been locked for the whole freeze period yet.
    FreezePeriodActive,
    /// A configuration already exists.
    AlreadyInitialized,
    /// The holder already has a record.
    AlreadyRegistered,
    /// The item is already locked.
    DuplicateLock,
    /// A record that the operation needs does not exist.
    NotFound,
    /// The lock on the item belongs to another holder.
    NotOwner,
    /// The holder has no points to redeem.
    NothingToClaim,
    /// The item's collection membership was not verified.
    UnverifiedAsset,
}

impl StakeError {
    /// Whether the caller can correct the failure by waiting or by releasing
    /// another item, as opposed to a conflict with the stored records.
    pub fn is_policy_violation(&self) -> (r: bool)
        ensures
            r == (*self == StakeError::MaxLocksReached || *self
                == StakeError::FreezePeriodActive),
    {
        match self {
            StakeError::MaxLocksReached => true,
            StakeError::FreezePeriodActive => true,
            _ => false,
        }
    }
}

} // verus!
