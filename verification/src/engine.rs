//! The staking engine: the operations on a whole system, with its records
//! kept in keyed tables.
//!
//! Each operation either succeeds and leaves the system as the model in
//! [`crate::model`] says, or is refused and leaves it exactly as it was.
use vstd::prelude::*;
use crate::error::StakeError;
use crate::instructions::{lock_requests, release_requests, CustodyRequest, Stake, Unstake};
use crate::key::Key;
use crate::model::{
    law_claim_keeps_inv, law_empty_inv, law_initialize_config_keeps_inv,
    law_initialize_user_keeps_inv, law_release_has_lock, law_stake_keeps_inv,
    law_unstake_keeps_inv, StakingView,
};
use crate::state::{StakeAccount, StakeConfig, UserAccount};
use crate::ledger::LockLedger;
use crate::table::Table;

verus! {

/// A staking system: the configuration, the holder records by holder, and
/// the lock records by item.
pub struct Staking {
    config: Option<StakeConfig>,
    users: Table<UserAccount>,
    stakes: LockLedger,
}

impl View for Staking {
    type V = StakingView;

    closed spec fn view(&self) -> StakingView {
        StakingView { config: self.config, users: self.users@, stakes: self.stakes@ }
    }
}

impl Staking {
    /// The tables are well formed and the system satisfies its invariant.
    pub closed spec fn wf(&self) -> bool {
        &&& self.users.wf()
        &&& self.stakes.wf()
        &&& self@.inv()
    }

    /// A well-formed system satisfies the invariant of the model.
    pub proof fn lemma_wf_inv(&self)
        requires
            self.wf(),
        ensures
            self@.inv(),
    {
    }

    /// A system without configuration, holders or locks.
    pub fn new() -> (s: Staking)
        ensures
            s.wf(),
            s@ == StakingView::empty(),
    {
        proof {
            law_empty_inv();
        }
        Staking { config: None, users: Table::new(), stakes: LockLedger::new() }
    }

    /// The configuration, if it has been set.
    pub fn config(&self) -> (c: Option<StakeConfig>)
        ensures
            c == self@.config,
    {
        self.config
    }

    /// The record of `holder`, if the holder is registered.
    pub fn user_account(&self, holder: &Key) -> (u: Option<UserAccount>)
        requires
            self.wf(),
        ensures
            u == (if self@.users.dom().contains(holder@) {
                Some(self@.users[holder@])
            } else {
                None
            }),
    {
        match self.users.get(holder) {
            Some(u) => Some(*u),
            None => None,
        }
    }

    /// The lock record of `item`, if the item is locked.
    pub fn stake_account(&self, item: &Key) -> (l: Option<StakeAccount>)
        requires
            self.wf(),
        ensures
            l == (if self@.stakes.dom().contains(item@) {
                Some(self@.stakes[item@])
            } else {
                None
            }),
    {
        self.stakes.lock(item)
    }
}

/// Sets the configuration. Refused with `AlreadyInitialized` if there is one.
pub fn initialize_config(
    state: &mut Staking,
    points_per_lock: u8,
    max_locks: u8,
    freeze_period: u32,
) -> (r: Result<(), StakeError>)
    requires
        old(state).wf(),
    ensures
        final(state).wf(),
        match old(state)@.initialize_config_spec(points_per_lock, max_locks, freeze_period) {
            Ok(next) => r is Ok && final(state)@ == next,
            Err(e) => r == Err::<(), StakeError>(e) && final(state)@ == old(state)@,
        },
{
    proof {
        law_initialize_config_keeps_inv(state@, points_per_lock, max_locks, freeze_period);
    }
    if state.config.is_some() {
        return Err(StakeError::AlreadyInitialized);
    }
    state.config = Some(StakeConfig::new(points_per_lock, max_locks, freeze_period));
    Ok(())
}

/// Registers `holder` with no points and no locks, and returns the new
/// record. Refused with `AlreadyRegistered` if the holder has a record.
pub fn initialize_user(state: &mut Staking, holder: &Key) -> (r: Result<UserAccount, StakeError>)
    requires
        old(state).wf(),
    ensures
        final(state).wf(),
        match old(state)@.initialize_user_spec(*holder) {
            Ok(next) => r == Ok::<UserAccount, StakeError>(
                UserAccount { points: 0, active_locks: 0 },
            ) && final(state)@ == next,
            Err(e) => r == Err::<UserAccount, StakeError>(e) && final(state)@ == old(state)@,
        },
{
    proof {
        law_initialize_user_keeps_inv(state@, *holder);
    }
    if state.users.contains(holder) {
        return Err(StakeError::AlreadyRegistered);
    }
    let account = UserAccount::new();
    state.users.put(*holder, account);
    Ok(account)
}

/// Locks `item` for `holder` at time `now`. `verified` is the custody
/// service's answer to whether the item belongs to the accepted collection.
///
/// On success the lock record exists, the holder's count is one higher, and
/// the requests to delegate and then freeze the item are returned. Refused
/// with `NotFound` without a configuration or a holder record, with
/// `MaxLocksReached` at the cap, with `UnverifiedAsset` if `verified` is
/// false, with `DuplicateLock` if the item is locked already, in this order.
pub fn stake(state: &mut Staking, holder: &Key, item: &Key, verified: bool, now: i64) -> (r: Result<
    Vec<CustodyRequest>,
    StakeError,
>)
    requires
        old(state).wf(),
    ensures
        final(state).wf(),
        match old(state)@.stake_spec(*holder, *item, verified, now) {
            Ok(next) => r is Ok && r->Ok_0@ == lock_requests(*item) && final(state)@ == next,
            Err(e) => r is Err && r->Err_0 == e && final(state)@ == old(state)@,
        },
{
    proof {
        law_stake_keeps_inv(state@, *holder, *item, verified, now);
    }
    let config = match state.config {
        Some(c) => c,
        None => {
            return Err(StakeError::NotFound);
        },
    };
    let user_account = match state.user_account(holder) {
        Some(u) => u,
        None => {
            return Err(StakeError::NotFound);
        },
    };
    let stake_account = state.stake_account(item);
    let mut ctx = Stake { user: *holder, mint: *item, verified, config, stake_account, user_account };
    assert(state@.stake_context(*holder, *item, verified) == Some(ctx));
    match ctx.stake(now) {
        Err(e) => Err(e),
        Ok(requests) => {
            match state.stakes.create_lock(*holder, *item, now) {
                Err(e) => Err(e),
                Ok(_) => {
                    state.users.put(*holder, ctx.user_account);
                    Ok(requests)
                },
            }
        },
    }
}

/// Releases `item` for `holder` at time `now`.
///
/// On success the requests to thaw the item and then revoke the delegation
/// are returned, the holder is credited `points_per_lock` points and has one
/// lock fewer, and the lock record is gone. Refused with `NotFound` without
/// a configuration, a holder record or a lock record, with `NotOwner` if
/// another holder locked the item, with `FreezePeriodActive` before the
/// freeze period has passed since the lock, in this order.
pub fn unstake(state: &mut Staking, holder: &Key, item: &Key, now: i64) -> (r: Result<
    Vec<CustodyRequest>,
    StakeError,
>)
    requires
        old(state).wf(),
        old(state)@.unstake_spec(*holder, *item, now) is Ok ==> old(state)@.credit_fits(*holder),
    ensures
        final(state).wf(),
        match old(state)@.unstake_spec(*holder, *item, now) {
            Ok(next) => r is Ok && r->Ok_0@ == release_requests(*item) && final(state)@ == next,
            Err(e) => r is Err && r->Err_0 == e && final(state)@ == old(state)@,
        },
{
    proof {
        law_unstake_keeps_inv(state@, *holder, *item, now);
        if state@.unstake_spec(*holder, *item, now) is Ok {
            law_release_has_lock(state@, *holder, *item, now);
        }
    }
    let config = match state.config {
        Some(c) => c,
        None => {
            return Err(StakeError::NotFound);
        },
    };
    let user_account = match state.user_account(holder) {
        Some(u) => u,
        None => {
            return Err(StakeError::NotFound);
        },
    };
    let stake_account = state.stake_account(item);
    let mut ctx = Unstake { user: *holder, mint: *item, config, stake_account, user_account };
    assert(state@.unstake_context(*holder, *item) == Some(ctx));
    match ctx.unstake(now) {
        Err(e) => Err(e),
        Ok(requests) => {
            match state.stakes.remove_lock(item, holder) {
                Err(e) => Err(e),
                Ok(()) => {
                    state.users.put(*holder, ctx.user_account);
                    Ok(requests)
                },
            }
        },
    }
}

/// Redeems all points of `holder`: returns the balance and leaves zero.
/// Refused with `NotFound` without a holder record and with `NothingToClaim`
/// if the balance is zero. Lock records are not touched.
pub fn claim(state: &mut Staking, holder: &Key) -> (r: Result<u32, StakeError>)
    requires
        old(state).wf(),
    ensures
        final(state).wf(),
        match old(state)@.claim_spec(*holder) {
            Ok((payout, next)) => r == Ok::<u32, StakeError>(payout) && final(state)@ == next,
            Err(e) => r == Err::<u32, StakeError>(e) && final(state)@ == old(state)@,
        },
{
    proof {
        law_claim_keeps_inv(state@, *holder);
    }
    let mut user_account = match state.user_account(holder) {
        Some(u) => u,
        None => {
            return Err(StakeError::NotFound);
        },
    };
    match user_account.claim() {
        Err(e) => Err(e),
        Ok(payout) => {
            state.users.put(*holder, user_account);
            Ok(payout)
        },
    }
}

} // verus!
