//! The three persistent records: configuration, holder record, lock record.
use vstd::prelude::*;
use crate::error::StakeError;
use crate::key::Key;

verus! {

/// The global parameters. There is one configuration per system; it is set
/// once and read by every operation.
#[derive(Clone, Copy, Debug, PartialEq, Eq, Structural)]
pub struct StakeConfig {
    /// Points credited each time a lock is released.
    pub points_per_lock: u8,
    /// How many items one holder may have locked at a time.
    pub max_locks: u8,
    /// Seconds an item must stay locked before it may be released.
    pub freeze_period: u32,
}

impl StakeConfig {
    /// A configuration with the given parameters.
    pub fn new(points_per_lock: u8, max_locks: u8, freeze_period: u32) -> (c: StakeConfig)
        ensures
            c == (StakeConfig { points_per_lock, max_locks, freeze_period }),
    {
        StakeConfig { points_per_lock, max_locks, freeze_period }
    }

    /// Whether a holder with this record may lock one more item.
    pub fn has_room(&self, user: &UserAccount) -> (r: bool)
        ensures
            r == (user.active_locks < self.max_locks),
    {
        user.active_locks < self.max_locks
    }
}

/// The aggregate kept per holder.
#[derive(Clone, Copy, Debug, PartialEq, Eq, Structural)]
pub struct UserAccount {
    /// Redeemable points: raised by each release, reset by a claim.
    pub points: u32,
    /// Number of items the holder has locked right now.
    pub active_locks: u8,
}

impl UserAccount {
    /// The record of a holder who has just registered.
    pub fn new() -> (u: UserAccount)
        ensures
            u == (UserAccount { points: 0, active_locks: 0 }),
    {
        UserAccount { points: 0, active_locks: 0 }
    }

    /// Counts one more locked item.
    pub fn increment_locks(&mut self)
        requires
            old(self).active_locks < u8::MAX,
        ensures
            final(self).active_locks == old(self).active_locks + 1,
            final(self).points == old(self).points,
    {
        self.active_locks = self.active_locks + 1;
    }

    /// Counts one locked item fewer.
    pub fn decrement_locks(&mut self)
        requires
            old(self).active_locks > 0,
        ensures
            final(self).active_locks == old(self).active_locks - 1,
            final(self).points == old(self).points,
    {
        self.active_locks = self.active_locks - 1;
    }

    /// Credits `amount` points.
    pub fn add_points(&mut self, amount: u32)
        requires
            old(self).points + amount <= u32::MAX,
        ensures
            final(self).points == old(self).points + amount,
            final(self).active_locks == old(self).active_locks,
    {
        self.points = self.points + amount;
    }

    /// Sets the balance to zero and returns what it was.
    pub fn reset_points(&mut self) -> (prior: u32)
        ensures
            prior == old(self).points,
            final(self).points == 0,
            final(self).active_locks == old(self).active_locks,
    {
        let prior: u32 = self.points;
        self.points = 0;
        prior
    }

    /// What a claim does to a holder record: the payout and the record
    /// afterwards, or the refusal.
    pub open spec fn claim_spec(self) -> Result<(u32, UserAccount), StakeError> {
        if self.points == 0 {
            Err(StakeError::NothingToClaim)
        } else {
            Ok((self.points, UserAccount { points: 0, active_locks: self.active_locks }))
        }
    }

    /// Redeems the whole balance: returns it and leaves zero. Refused with
    /// `NothingToClaim`, and without any change, when the balance is zero.
    pub fn claim(&mut self) -> (r: Result<u32, StakeError>)
        ensures
            match old(self).claim_spec() {
                Ok((payout, next)) => r == Ok::<u32, StakeError>(payout) && *final(self) == next,
                Err(e) => r == Err::<u32, StakeError>(e) && *final(self) == *old(self),
            },
    {
        if self.points == 0 {
            return Err(StakeError::NothingToClaim);
        }
        Ok(self.reset_points())
    }
}

/// The record of one locked item. It exists exactly while the item is locked.
#[derive(Clone, Copy, Debug, PartialEq, Eq)]
pub struct StakeAccount {
    /// The holder who locked the item.
    pub owner: Key,
    /// The locked item.
    pub item_id: Key,
    /// When the item was locked, in seconds.
    pub locked_at: i64,
}

impl StakeAccount {
    /// The record of an item locked by `owner` at `locked_at`.
    pub fn new(owner: Key, item_id: Key, locked_at: i64) -> (s: StakeAccount)
        ensures
            s == (StakeAccount { owner, item_id, locked_at }),
    {
        StakeAccount { owner, item_id, locked_at }
    }

    /// Seconds between the lock and `now`; negative if `now` lies before it.
    pub open spec fn elapsed(&self, now: i64) -> int {
        now - self.locked_at
    }

    /// Whether the item has been locked for at least `freeze_period` seconds
    /// at time `now`.
    pub open spec fn matured(&self, freeze_period: u32, now: i64) -> bool {
        self.elapsed(now) >= freeze_period
    }

    /// Computes [`Self::matured`].
    pub fn is_matured(&self, freeze_period: u32, now: i64) -> (r: bool)
        ensures
            r == self.matured(freeze_period, now),
    {
        let elapsed: i128 = now as i128 - self.locked_at as i128;
        elapsed >= freeze_period as i128
    }

    /// Whether `holder` is the one who locked the item.
    pub fn is_owned_by(&self, holder: &Key) -> (r: bool)
        ensures
            r == (self.owner@ == holder@),
    {
        self.owner.same(holder)
    }
}

} // verus!
