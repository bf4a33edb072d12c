//! The lock and release transitions on the records they touch.
//!
//! A transition takes the records as plain values, decides, and leaves the
//! records as they are to be stored. What has to happen to the item itself is
//! handed back as a list of requests for the custody service, in the order in
//! which they are to be carried out. A transition that is refused changes
//! nothing and requests nothing.
use vstd::prelude::*;
use crate::error::StakeError;
use crate::key::Key;
use crate::state::{StakeAccount, StakeConfig, UserAccount};

verus! {

/// One request to the service that holds custody of the items. The authority
/// on whose behalf an item is frozen or thawed is the one bound to the item's
/// lock record; the holder stays the item's owner throughout.
#[derive(Clone, Copy, Debug, PartialEq, Eq)]
pub enum CustodyRequest {
    /// Let the lock record's authority act for the holder on `item`.
    GrantDelegate { item: Key },
    /// Bar `item` from being transferred or burnt.
    Freeze { item: Key },
    /// Lift the bar on `item`.
    Thaw { item: Key },
    /// End the authority's power over `item`.
    RevokeDelegate { item: Key },
}

/// What locking an item requests: delegation first, then the freeze.
pub open spec fn lock_requests(item: Key) -> Seq<CustodyRequest> {
    seq![CustodyRequest::GrantDelegate { item }, CustodyRequest::Freeze { item }]
}

/// What releasing an item requests: the thaw first, then the revocation.
pub open spec fn release_requests(item: Key) -> Seq<CustodyRequest> {
    seq![CustodyRequest::Thaw { item }, CustodyRequest::RevokeDelegate { item }]
}

/// What an item's metadata says of its collection.
#[derive(Clone, Copy, Debug, PartialEq, Eq)]
pub struct Collection {
    /// The collection that the item claims to belong to.
    pub key: Key,
    /// Whether the collection's authority has confirmed the claim.
    pub verified: bool,
}

/// An item is a verified member of `expected` when its metadata names that
/// collection and the claim has been confirmed.
pub open spec fn membership_verified(collection: Option<Collection>, expected: Key) -> bool {
    match collection {
        Some(c) => c.verified && c.key@ == expected@,
        None => false,
    }
}

/// Computes [`membership_verified`].
pub fn verify_collection_membership(collection: Option<Collection>, expected: &Key) -> (r: bool)
    ensures
        r == membership_verified(collection, *expected),
{
    match collection {
        Some(c) => c.verified && c.key.same(expected),
        None => false,
    }
}

/// The records that locking one item reads and writes.
#[derive(Clone, Copy, Debug, PartialEq, Eq)]
pub struct Stake {
    /// The holder who asks for the lock.
    pub user: Key,
    /// The item to be locked.
    pub mint: Key,
    /// Whether the custody service has verified the item's collection
    /// membership.
    pub verified: bool,
    /// The configuration.
    pub config: StakeConfig,
    /// The item's lock record: `None` while the item is not locked.
    pub stake_account: Option<StakeAccount>,
    /// The holder's record.
    pub user_account: UserAccount,
}

impl Stake {
    /// The outcome of locking at time `now`: the records afterwards, or the
    /// refusal. The cap is tested first, then the verification, then whether
    /// the item is locked already.
    pub open spec fn stake_spec(self, now: i64) -> Result<Stake, StakeError> {
        if self.user_account.active_locks >= self.config.max_locks {
            Err(StakeError::MaxLocksReached)
        } else if !self.verified {
            Err(StakeError::UnverifiedAsset)
        } else if self.stake_account is Some {
            Err(StakeError::DuplicateLock)
        } else {
            Ok(
                Stake {
                    stake_account: Some(
                        StakeAccount { owner: self.user, item_id: self.mint, locked_at: now },
                    ),
                    user_account: UserAccount {
                        points: self.user_account.points,
                        active_locks: (self.user_account.active_locks + 1) as u8,
                    },
                    ..self
                },
            )
        }
    }

    /// Locks the item at time `now`. On success the lock record is written,
    /// the holder's count is one higher, and the requests to delegate and
    /// freeze the item are returned; the record is written before anything is
    /// requested.
    pub fn stake(&mut self, now: i64) -> (r: Result<Vec<CustodyRequest>, StakeError>)
        ensures
            match old(self).stake_spec(now) {
                Ok(next) => *final(self) == next && r is Ok && r->Ok_0@ == lock_requests(
                    old(self).mint,
                ),
                Err(e) => *final(self) == *old(self) && r is Err && r->Err_0 == e,
            },
    {
        if !self.config.has_room(&self.user_account) {
            return Err(StakeError::MaxLocksReached);
        }
        if !self.verified {
            return Err(StakeError::UnverifiedAsset);
        }
        if self.stake_account.is_some() {
            return Err(StakeError::DuplicateLock);
        }
        self.stake_account = Some(StakeAccount::new(self.user, self.mint, now));
        let mut requests: Vec<CustodyRequest> = Vec::new();
        requests.push(CustodyRequest::GrantDelegate { item: self.mint });
        requests.push(CustodyRequest::Freeze { item: self.mint });
        self.user_account.increment_locks();
        assert(requests@ =~= lock_requests(self.mint));
        Ok(requests)
    }
}

/// The records that releasing one item reads and writes.
#[derive(Clone, Copy, Debug, PartialEq, Eq)]
pub struct Unstake {
    /// The holder who asks for the release.
    pub user: Key,
    /// The item to be released.
    pub mint: Key,
    /// The configuration.
    pub config: StakeConfig,
    /// The item's lock record: `None` if the item is not locked.
    pub stake_account: Option<StakeAccount>,
    /// The holder's record.
    pub user_account: UserAccount,
}

impl Unstake {
    /// Whether the release can be carried out within the limits of the
    /// record's fields: the holder has a lock to give back, and the credit
    /// fits the balance.
    pub open spec fn in_range(self) -> bool {
        &&& self.user_account.active_locks > 0
        &&& self.user_account.points + self.config.points_per_lock <= u32::MAX
    }

    /// The outcome of releasing at time `now`: the records afterwards, or the
    /// refusal. The credit is `points_per_lock`, however long the item was
    /// locked.
    pub open spec fn unstake_spec(self, now: i64) -> Result<Unstake, StakeError> {
        match self.stake_account {
            None => Err(StakeError::NotFound),
            Some(lock) => if lock.owner@ != self.user@ {
                Err(StakeError::NotOwner)
            } else if !lock.matured(self.config.freeze_period, now) {
                Err(StakeError::FreezePeriodActive)
            } else {
                Ok(
                    Unstake {
                        stake_account: None,
                        user_account: UserAccount {
                            points: (self.user_account.points
                                + self.config.points_per_lock) as u32,
                            active_locks: (self.user_account.active_locks - 1) as u8,
                        },
                        ..self
                    },
                )
            },
        }
    }

    /// Releases the item at time `now`. On success the requests to thaw the
    /// item and to revoke the delegation are returned, the holder is credited
    /// and has one lock fewer, and the lock record is gone; the record is
    /// dropped only after the requests have been drawn up from it.
    pub fn unstake(&mut self, now: i64) -> (r: Result<Vec<CustodyRequest>, StakeError>)
        requires
            old(self).unstake_spec(now) is Ok ==> old(self).in_range(),
        ensures
            match old(self).unstake_spec(now) {
                Ok(next) => *final(self) == next && r is Ok && r->Ok_0@ == release_requests(
                    old(self).mint,
                ),
                Err(e) => *final(self) == *old(self) && r is Err && r->Err_0 == e,
            },
    {
        match self.stake_account {
            None => {
                return Err(StakeError::NotFound);
            },
            Some(lock) => {
                if !lock.is_owned_by(&self.user) {
                    return Err(StakeError::NotOwner);
                }
                if !lock.is_matured(self.config.freeze_period, now) {
                    return Err(StakeError::FreezePeriodActive);
                }
            },
        }
        let mut requests: Vec<CustodyRequest> = Vec::new();
        requests.push(CustodyRequest::Thaw { item: self.mint });
        requests.push(CustodyRequest::RevokeDelegate { item: self.mint });
        self.user_account.add_points(self.config.points_per_lock as u32);
        self.user_account.decrement_locks();
        self.stake_account = None;
        assert(requests@ =~= release_requests(self.mint));
        Ok(requests)
    }
}

} // verus!
