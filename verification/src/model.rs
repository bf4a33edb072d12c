//! The mathematical model of a whole staking system, and what holds of it.
//!
//! A system is a configuration, a map of holder records and a map of lock
//! records. Each operation is a function from a system to the system
//! afterwards, or to a refusal. The laws at the end of the file are proved of
//! these functions; the operations in [`crate::engine`] are proved to compute
//! them.
use vstd::prelude::*;
use crate::error::StakeError;
use crate::instructions::{Stake, Unstake};
use crate::key::Key;
use crate::state::{StakeAccount, StakeConfig, UserAccount};

verus! {

/// A staking system as a value: holders and items are named by the bytes of
/// their keys.
pub struct StakingView {
    /// The configuration, once it has been set.
    pub config: Option<StakeConfig>,
    /// The record of each registered holder.
    pub users: Map<Seq<u8>, UserAccount>,
    /// The lock record of each locked item.
    pub stakes: Map<Seq<u8>, StakeAccount>,
}

/// The items that `holder` has locked.
pub open spec fn locks_of(stakes: Map<Seq<u8>, StakeAccount>, holder: Seq<u8>) -> Set<Seq<u8>> {
    stakes.dom().filter(|item: Seq<u8>| stakes[item].owner@ == holder)
}

impl StakingView {
    /// The system before anything has happened.
    pub open spec fn empty() -> StakingView {
        StakingView { config: None, users: Map::empty(), stakes: Map::empty() }
    }

    /// The invariant of the system: every lock record is filed under its own
    /// item and belongs to a registered holder; every holder's count is the
    /// number of lock records that name the holder as owner; and no count
    /// exceeds the configured cap.
    pub open spec fn inv(self) -> bool {
        &&& self.users.dom().finite()
        &&& self.stakes.dom().finite()
        &&& forall|item: Seq<u8>| #[trigger]
            self.stakes.dom().contains(item) ==> {
                &&& self.stakes[item].item_id@ == item
                &&& self.users.dom().contains(self.stakes[item].owner@)
            }
        &&& forall|h: Seq<u8>| #[trigger]
            self.users.dom().contains(h) ==> self.users[h].active_locks == locks_of(
                self.stakes,
                h,
            ).len()
        &&& match self.config {
            Some(c) => forall|h: Seq<u8>| #[trigger]
                self.users.dom().contains(h) ==> self.users[h].active_locks <= c.max_locks,
            None => self.stakes.dom() == Set::<Seq<u8>>::empty(),
        }
    }

    /// Setting the configuration: refused if there is one already.
    pub open spec fn initialize_config_spec(
        self,
        points_per_lock: u8,
        max_locks: u8,
        freeze_period: u32,
    ) -> Result<StakingView, StakeError> {
        if self.config is Some {
            Err(StakeError::AlreadyInitialized)
        } else {
            Ok(
                StakingView {
                    config: Some(StakeConfig { points_per_lock, max_locks, freeze_period }),
                    ..self
                },
            )
        }
    }

    /// Registering a holder: refused if the holder has a record already.
    pub open spec fn initialize_user_spec(self, holder: Key) -> Result<StakingView, StakeError> {
        if self.users.dom().contains(holder@) {
            Err(StakeError::AlreadyRegistered)
        } else {
            Ok(
                StakingView {
                    users: self.users.insert(holder@, UserAccount { points: 0, active_locks: 0 }),
                    ..self
                },
            )
        }
    }

    /// The records that locking `item` for `holder` works on, if the
    /// configuration and the holder's record exist.
    pub open spec fn stake_context(self, holder: Key, item: Key, verified: bool) -> Option<Stake> {
        match self.config {
            Some(config) if self.users.dom().contains(holder@) => Some(
                Stake {
                    user: holder,
                    mint: item,
                    verified,
                    config,
                    stake_account: if self.stakes.dom().contains(item@) {
                        Some(self.stakes[item@])
                    } else {
                        None
                    },
                    user_account: self.users[holder@],
                },
            ),
            _ => None,
        }
    }

    /// Locking `item` for `holder` at time `now`: `NotFound` without a
    /// configuration or a holder record, else what [`Stake::stake_spec`] says
    /// of the records, which are then stored.
    pub open spec fn stake_spec(self, holder: Key, item: Key, verified: bool, now: i64) -> Result<
        StakingView,
        StakeError,
    > {
        match self.stake_context(holder, item, verified) {
            None => Err(StakeError::NotFound),
            Some(ctx) => match ctx.stake_spec(now) {
                Err(e) => Err(e),
                Ok(next) => Ok(
                    StakingView {
                        users: self.users.insert(holder@, next.user_account),
                        stakes: self.stakes.insert(
                            item@,
                            StakeAccount { owner: holder, item_id: item, locked_at: now },
                        ),
                        ..self
                    },
                ),
            },
        }
    }

    /// The records that releasing `item` for `holder` works on, if the
    /// configuration and the holder's record exist.
    pub open spec fn unstake_context(self, holder: Key, item: Key) -> Option<Unstake> {
        match self.config {
            Some(config) if self.users.dom().contains(holder@) => Some(
                Unstake {
                    user: holder,
                    mint: item,
                    config,
                    stake_account: if self.stakes.dom().contains(item@) {
                        Some(self.stakes[item@])
                    } else {
                        None
                    },
                    user_account: self.users[holder@],
                },
            ),
            _ => None,
        }
    }

    /// Releasing `item` for `holder` at time `now`: `NotFound` without a
    /// configuration or a holder record, else what [`Unstake::unstake_spec`]
    /// says of the records; on success the holder's record is stored and the
    /// lock record is dropped.
    pub open spec fn unstake_spec(self, holder: Key, item: Key, now: i64) -> Result<
        StakingView,
        StakeError,
    > {
        match self.unstake_context(holder, item) {
            None => Err(StakeError::NotFound),
            Some(ctx) => match ctx.unstake_spec(now) {
                Err(e) => Err(e),
                Ok(next) => Ok(
                    StakingView {
                        users: self.users.insert(holder@, next.user_account),
                        stakes: self.stakes.remove(item@),
                        ..self
                    },
                ),
            },
        }
    }

    /// Whether crediting `holder` for one release stays within the balance's
    /// range. It does for a holder who is not registered.
    pub open spec fn credit_fits(self, holder: Key) -> bool {
        match self.config {
            Some(c) if self.users.dom().contains(holder@) => self.users[holder@].points
                + c.points_per_lock <= u32::MAX,
            _ => true,
        }
    }

    /// Redeeming the points of `holder`: the payout and the system
    /// afterwards. `NotFound` without a holder record, `NothingToClaim` with
    /// a balance of zero.
    pub open spec fn claim_spec(self, holder: Key) -> Result<(u32, StakingView), StakeError> {
        if !self.users.dom().contains(holder@) {
            Err(StakeError::NotFound)
        } else {
            match self.users[holder@].claim_spec() {
                Err(e) => Err(e),
                Ok((payout, next)) => Ok(
                    (payout, StakingView { users: self.users.insert(holder@, next), ..self }),
                ),
            }
        }
    }
}

/// Whether `k` names one of `items`.
pub open spec fn among(items: Seq<Key>, k: Seq<u8>) -> bool {
    exists|i: int| 0 <= i < items.len() && #[trigger] items[i]@ == k
}

/// The names of `items`, as a set.
pub open spec fn names(items: Seq<Key>) -> Set<Seq<u8>> {
    Set::new(|k: Seq<u8>| among(items, k))
}

/// Locking the items of `items` for `holder` one after another, each of them
/// verified, all at time `now`. The first refusal ends the run.
pub open spec fn stake_all(s: StakingView, holder: Key, items: Seq<Key>, now: i64) -> Result<
    StakingView,
    StakeError,
>
    decreases items.len(),
{
    if items.len() == 0 {
        Ok(s)
    } else {
        match stake_all(s, holder, items.drop_last(), now) {
            Err(e) => Err(e),
            Ok(mid) => mid.stake_spec(holder, items.last(), true, now),
        }
    }
}

/// One request to the system.
pub enum Operation {
    /// Set the configuration.
    InitializeConfig { points_per_lock: u8, max_locks: u8, freeze_period: u32 },
    /// Register a holder.
    InitializeUser { holder: Key },
    /// Lock an item.
    Stake { holder: Key, item: Key, verified: bool, now: i64 },
    /// Release an item.
    Unstake { holder: Key, item: Key, now: i64 },
    /// Redeem a holder's points.
    Claim { holder: Key },
}

/// The system after `op` has been asked of `s`: as the operation leaves it,
/// or `s` itself if the operation is refused.
pub open spec fn step(s: StakingView, op: Operation) -> StakingView {
    match op {
        Operation::InitializeConfig { points_per_lock, max_locks, freeze_period } => {
            match s.initialize_config_spec(points_per_lock, max_locks, freeze_period) {
                Ok(next) => next,
                Err(_) => s,
            }
        },
        Operation::InitializeUser { holder } => match s.initialize_user_spec(holder) {
            Ok(next) => next,
            Err(_) => s,
        },
        Operation::Stake { holder, item, verified, now } => match s.stake_spec(
            holder,
            item,
            verified,
            now,
        ) {
            Ok(next) => next,
            Err(_) => s,
        },
        Operation::Unstake { holder, item, now } => match s.unstake_spec(holder, item, now) {
            Ok(next) => next,
            Err(_) => s,
        },
        Operation::Claim { holder } => match s.claim_spec(holder) {
            Ok((_, next)) => next,
            Err(_) => s,
        },
    }
}

/// The system after the operations of `ops` have been asked of the empty
/// system, one after another.
pub open spec fn run(ops: Seq<Operation>) -> StakingView
    decreases ops.len(),
{
    if ops.len() == 0 {
        StakingView::empty()
    } else {
        step(run(ops.drop_last()), ops.last())
    }
}

/// Locking an item that was not locked adds it to its owner's locks and to
/// nobody else's.
proof fn lemma_locks_after_insert(
    stakes: Map<Seq<u8>, StakeAccount>,
    item: Seq<u8>,
    lock: StakeAccount,
    h: Seq<u8>,
)
    requires
        stakes.dom().finite(),
        !stakes.dom().contains(item),
    ensures
        locks_of(stakes, h).finite(),
        locks_of(stakes.insert(item, lock), h).len() == locks_of(stakes, h).len() + (if lock.owner@
            == h {
            1nat
        } else {
            0nat
        }),
{
    stakes.dom().lemma_len_filter(|i: Seq<u8>| stakes[i].owner@ == h);
    let after = stakes.insert(item, lock);
    if lock.owner@ == h {
        assert(locks_of(after, h) =~= locks_of(stakes, h).insert(item));
    } else {
        assert(locks_of(after, h) =~= locks_of(stakes, h));
    }
}

/// Dropping a lock record takes the item from its owner's locks and from
/// nobody else's.
proof fn lemma_locks_after_remove(stakes: Map<Seq<u8>, StakeAccount>, item: Seq<u8>, h: Seq<u8>)
    requires
        stakes.dom().finite(),
        stakes.dom().contains(item),
    ensures
        locks_of(stakes, h).finite(),
        stakes[item].owner@ == h ==> locks_of(stakes, h).len() >= 1,
        locks_of(stakes.remove(item), h).len() == locks_of(stakes, h).len() - (if stakes[item].owner@
            == h {
            1int
        } else {
            0int
        }),
{
    stakes.dom().lemma_len_filter(|i: Seq<u8>| stakes[i].owner@ == h);
    let after = stakes.remove(item);
    if stakes[item].owner@ == h {
        assert(locks_of(stakes, h).contains(item));
        assert(locks_of(after, h) =~= locks_of(stakes, h).remove(item));
    } else {
        assert(locks_of(after, h) =~= locks_of(stakes, h));
    }
}

/// The empty system satisfies the invariant.
pub proof fn law_empty_inv()
    ensures
        StakingView::empty().inv(),
{
    let s = StakingView::empty();
    assert(s.stakes.dom() =~= Set::<Seq<u8>>::empty());
}

/// In a system that satisfies the invariant, every holder's count of locked
/// items lies between zero and the configured cap.
pub proof fn law_count_within_cap(s: StakingView, holder: Key)
    requires
        s.inv(),
        s.config is Some,
        s.users.dom().contains(holder@),
    ensures
        0 <= s.users[holder@].active_locks <= s.config->Some_0.max_locks,
{
}

/// Setting the configuration keeps the invariant.
pub proof fn law_initialize_config_keeps_inv(
    s: StakingView,
    points_per_lock: u8,
    max_locks: u8,
    freeze_period: u32,
)
    requires
        s.inv(),
    ensures
        s.initialize_config_spec(points_per_lock, max_locks, freeze_period) matches Ok(next)
            ==> next.inv(),
{
    if s.config is None {
        assert forall|h: Seq<u8>| #[trigger] s.users.dom().contains(h) implies s.users[h].active_locks
            == 0 by {
            assert(locks_of(s.stakes, h) =~= Set::<Seq<u8>>::empty());
        }
    }
}

/// Registering a holder keeps the invariant.
pub proof fn law_initialize_user_keeps_inv(s: StakingView, holder: Key)
    requires
        s.inv(),
    ensures
        s.initialize_user_spec(holder) matches Ok(next) ==> next.inv(),
{
    if let Ok(next) = s.initialize_user_spec(holder) {
        assert(locks_of(s.stakes, holder@) =~= Set::<Seq<u8>>::empty());
        assert forall|h: Seq<u8>| #[trigger] next.users.dom().contains(h) implies next.users[h].active_locks
            == locks_of(next.stakes, h).len() by {
            if h != holder@ {
                assert(s.users.dom().contains(h));
            }
        }
        match next.config {
            Some(c) => {
                assert forall|h: Seq<u8>| #[trigger] next.users.dom().contains(h) implies next.users[h].active_locks
                    <= c.max_locks by {
                    if h != holder@ {
                        assert(s.users.dom().contains(h));
                    }
                }
            },
            None => {},
        }
    }
}

/// Locking an item keeps the invariant.
pub proof fn law_stake_keeps_inv(s: StakingView, holder: Key, item: Key, verified: bool, now: i64)
    requires
        s.inv(),
    ensures
        s.stake_spec(holder, item, verified, now) matches Ok(next) ==> next.inv(),
{
    if let Ok(next) = s.stake_spec(holder, item, verified, now) {
        let lock = StakeAccount { owner: holder, item_id: item, locked_at: now };
        let c = s.config->Some_0;
        assert forall|h: Seq<u8>| #[trigger] next.users.dom().contains(h) implies next.users[h].active_locks
            == locks_of(next.stakes, h).len() && next.users[h].active_locks <= c.max_locks by {
            lemma_locks_after_insert(s.stakes, item@, lock, h);
            assert(s.users.dom().contains(h));
        }
        assert forall|i: Seq<u8>| #[trigger] next.stakes.dom().contains(i) implies next.stakes[i].item_id@
            == i && next.users.dom().contains(next.stakes[i].owner@) by {
            if i != item@ {
                assert(s.stakes.dom().contains(i));
            }
        }
    }
}

/// A holder who may release an item has at least one item locked.
pub proof fn law_release_has_lock(s: StakingView, holder: Key, item: Key, now: i64)
    requires
        s.inv(),
        s.unstake_spec(holder, item, now) is Ok,
    ensures
        s.users[holder@].active_locks >= 1,
{
    lemma_locks_after_remove(s.stakes, item@, holder@);
}

/// Releasing an item keeps the invariant.
pub proof fn law_unstake_keeps_inv(s: StakingView, holder: Key, item: Key, now: i64)
    requires
        s.inv(),
    ensures
        s.unstake_spec(holder, item, now) matches Ok(next) ==> next.inv(),
{
    if let Ok(next) = s.unstake_spec(holder, item, now) {
        let c = s.config->Some_0;
        law_release_has_lock(s, holder, item, now);
        assert forall|h: Seq<u8>| #[trigger] next.users.dom().contains(h) implies next.users[h].active_locks
            == locks_of(next.stakes, h).len() && next.users[h].active_locks <= c.max_locks by {
            lemma_locks_after_remove(s.stakes, item@, h);
            assert(s.users.dom().contains(h));
        }
        assert forall|i: Seq<u8>| #[trigger] next.stakes.dom().contains(i) implies next.stakes[i].item_id@
            == i && next.users.dom().contains(next.stakes[i].owner@) by {
            assert(s.stakes.dom().contains(i));
        }
    }
}

/// Redeeming points keeps the invariant.
pub proof fn law_claim_keeps_inv(s: StakingView, holder: Key)
    requires
        s.inv(),
    ensures
        s.claim_spec(holder) matches Ok(out) ==> out.1.inv(),
{
    if let Ok(out) = s.claim_spec(holder) {
        let next = out.1;
        assert(next.users.dom() =~= s.users.dom());
        assert forall|h: Seq<u8>| #[trigger] next.users.dom().contains(h) implies next.users[h].active_locks
            == s.users[h].active_locks by {
            assert(s.users.dom().contains(h));
        }
        assert forall|i: Seq<u8>| #[trigger] next.stakes.dom().contains(i) implies next.users.dom().contains(
            next.stakes[i].owner@,
        ) by {
            assert(s.stakes.dom().contains(i));
        }
    }
}

/// An item has at most one lock record: while it is locked, every attempt to
/// lock it again is refused, by whichever holder and at whatever time, and
/// with `DuplicateLock` where nothing else stands against the attempt.
pub proof fn law_one_lock_per_item(
    s: StakingView,
    holder: Key,
    item: Key,
    verified: bool,
    now: i64,
)
    requires
        s.inv(),
        s.stakes.dom().contains(item@),
    ensures
        s.stake_spec(holder, item, verified, now) is Err,
        s.config is Some && s.users.dom().contains(holder@) && s.users[holder@].active_locks
            < s.config->Some_0.max_locks && verified ==> s.stake_spec(holder, item, verified, now)
            == Err::<StakingView, StakeError>(StakeError::DuplicateLock),
{
}

/// A successful lock files exactly one record under the item, naming the
/// holder and the time, and a second lock of the same item is then refused.
pub proof fn law_lock_records_once(
    s: StakingView,
    holder: Key,
    item: Key,
    now: i64,
    other: Key,
    later: i64,
    verified: bool,
)
    requires
        s.inv(),
        s.stake_spec(holder, item, true, now) is Ok,
    ensures
        !s.stakes.dom().contains(item@),
        ({
            let locked = s.stake_spec(holder, item, true, now)->Ok_0;
            &&& locked.stakes[item@] == (StakeAccount { owner: holder, item_id: item, locked_at: now })
            &&& locked.stakes.dom() == s.stakes.dom().insert(item@)
            &&& locked.stake_spec(other, item, verified, later) is Err
        }),
{
}

/// After a lock at time `locked_at`, a release by the same holder is refused
/// with `FreezePeriodActive` at every time less than `freeze_period` seconds
/// later, and is carried out at every time from `freeze_period` seconds
/// later on, the first such second included.
pub proof fn law_freeze_period(s: StakingView, holder: Key, item: Key, locked_at: i64, now: i64)
    requires
        s.inv(),
        s.stake_spec(holder, item, true, locked_at) is Ok,
    ensures
        ({
            let locked = s.stake_spec(holder, item, true, locked_at)->Ok_0;
            let freeze_period = s.config->Some_0.freeze_period;
            &&& now - locked_at < freeze_period ==> locked.unstake_spec(holder, item, now)
                == Err::<StakingView, StakeError>(StakeError::FreezePeriodActive)
            &&& now - locked_at >= freeze_period ==> locked.unstake_spec(holder, item, now) is Ok
        }),
{
}

/// A release takes exactly one from the holder's count of locks and adds
/// exactly `points_per_lock` to the holder's points, at whatever time it
/// happens; it drops the item's lock record and touches no other record.
pub proof fn law_release_effect(s: StakingView, holder: Key, item: Key, now: i64)
    requires
        s.inv(),
        s.credit_fits(holder),
        s.unstake_spec(holder, item, now) is Ok,
    ensures
        ({
            let next = s.unstake_spec(holder, item, now)->Ok_0;
            let before = s.users[holder@];
            let after = next.users[holder@];
            &&& after.active_locks == before.active_locks - 1
            &&& after.points == before.points + s.config->Some_0.points_per_lock
            &&& next.users == s.users.insert(holder@, after)
            &&& next.stakes == s.stakes.remove(item@)
            &&& next.config == s.config
        }),
{
    law_release_has_lock(s, holder, item, now);
}

/// A claim pays out exactly the balance, which is not zero, and leaves a
/// balance of zero with the count of locks as it was; a second claim right
/// after it is refused with `NothingToClaim`.
pub proof fn law_claim_resets(s: StakingView, holder: Key)
    requires
        s.claim_spec(holder) is Ok,
    ensures
        ({
            let (payout, next) = s.claim_spec(holder)->Ok_0;
            &&& payout == s.users[holder@].points
            &&& payout > 0
            &&& next.users[holder@] == (UserAccount {
                points: 0,
                active_locks: s.users[holder@].active_locks,
            })
            &&& next.stakes == s.stakes
            &&& next.config == s.config
            &&& next.claim_spec(holder) == Err::<(u32, StakingView), StakeError>(
                StakeError::NothingToClaim,
            )
        }),
{
}

/// A registered holder below the cap can lock any verified item that is not
/// locked; the count of locks is then one higher.
pub proof fn law_lock_below_cap(s: StakingView, holder: Key, item: Key, now: i64)
    requires
        s.inv(),
        s.config is Some,
        s.users.dom().contains(holder@),
        s.users[holder@].active_locks < s.config->Some_0.max_locks,
        !s.stakes.dom().contains(item@),
    ensures
        s.stake_spec(holder, item, true, now) is Ok,
        s.stake_spec(holder, item, true, now)->Ok_0.users[holder@].active_locks
            == s.users[holder@].active_locks + 1,
{
}

/// A registered holder at the cap can lock nothing: every attempt is refused
/// with `MaxLocksReached`.
pub proof fn law_lock_at_cap(s: StakingView, holder: Key, item: Key, verified: bool, now: i64)
    requires
        s.inv(),
        s.config is Some,
        s.users.dom().contains(holder@),
        s.users[holder@].active_locks == s.config->Some_0.max_locks,
    ensures
        s.stake_spec(holder, item, verified, now) == Err::<StakingView, StakeError>(
            StakeError::MaxLocksReached,
        ),
{
}

/// The names of a run are the names of its front and the name of its last.
proof fn lemma_names_last(items: Seq<Key>)
    requires
        items.len() > 0,
    ensures
        names(items) == names(items.drop_last()).insert(items.last()@),
{
    let front = items.drop_last();
    assert forall|k: Seq<u8>|
        names(items).contains(k) <==> names(front).insert(items.last()@).contains(k) by {
        if among(front, k) {
            let i = choose|i: int| 0 <= i < front.len() && #[trigger] front[i]@ == k;
            assert(items[i]@ == k);
        }
        if k == items.last()@ {
            assert(items[items.len() - 1]@ == k);
        }
        if among(items, k) {
            let i = choose|i: int| 0 <= i < items.len() && #[trigger] items[i]@ == k;
            if i < front.len() {
                assert(front[i]@ == k);
            }
        }
    }
    assert(names(items) =~= names(front).insert(items.last()@));
}

/// A registered holder can lock any run of distinct, verified items that are
/// not locked, as long as the run does not take the holder's count beyond the
/// cap: every lock of the run succeeds, the count rises by the length of the
/// run, and exactly the items of the run are added to the locked ones.
pub proof fn law_fill_to_cap(s: StakingView, holder: Key, items: Seq<Key>, now: i64)
    requires
        s.inv(),
        s.config is Some,
        s.users.dom().contains(holder@),
        forall|i: int, j: int| 0 <= i < j < items.len() ==> items[i]@ != items[j]@,
        forall|i: int| 0 <= i < items.len() ==> !s.stakes.dom().contains(#[trigger] items[i]@),
        s.users[holder@].active_locks + items.len() <= s.config->Some_0.max_locks,
    ensures
        stake_all(s, holder, items, now) is Ok,
        ({
            let full = stake_all(s, holder, items, now)->Ok_0;
            &&& full.inv()
            &&& full.config == s.config
            &&& full.users.dom().contains(holder@)
            &&& full.users[holder@].active_locks == s.users[holder@].active_locks + items.len()
            &&& full.users[holder@].points == s.users[holder@].points
            &&& full.stakes.dom() == s.stakes.dom().union(names(items))
        }),
    decreases items.len(),
{
    if items.len() == 0 {
        assert(s.stakes.dom() =~= s.stakes.dom().union(names(items)));
    } else {
        let front = items.drop_last();
        let last = items.last();
        assert forall|i: int| 0 <= i < front.len() implies !s.stakes.dom().contains(
            #[trigger] front[i]@,
        ) by {
            assert(front[i] == items[i]);
        }
        law_fill_to_cap(s, holder, front, now);
        let mid = stake_all(s, holder, front, now)->Ok_0;
        assert(!s.stakes.dom().contains(items[items.len() - 1]@));
        if among(front, last@) {
            let i = choose|i: int| 0 <= i < front.len() && #[trigger] front[i]@ == last@;
            assert(items[i]@ == items[items.len() - 1]@);
        }
        assert(!mid.stakes.dom().contains(last@));
        law_lock_below_cap(mid, holder, last, now);
        law_stake_keeps_inv(mid, holder, last, true, now);
        let full = mid.stake_spec(holder, last, true, now)->Ok_0;
        lemma_names_last(items);
        assert(full.stakes.dom() =~= s.stakes.dom().union(names(items)));
    }
}

/// Whatever is asked of a system that satisfies the invariant, it satisfies
/// the invariant afterwards.
pub proof fn law_step_keeps_inv(s: StakingView, op: Operation)
    requires
        s.inv(),
    ensures
        step(s, op).inv(),
{
    match op {
        Operation::InitializeConfig { points_per_lock, max_locks, freeze_period } => {
            law_initialize_config_keeps_inv(s, points_per_lock, max_locks, freeze_period);
        },
        Operation::InitializeUser { holder } => {
            law_initialize_user_keeps_inv(s, holder);
        },
        Operation::Stake { holder, item, verified, now } => {
            law_stake_keeps_inv(s, holder, item, verified, now);
        },
        Operation::Unstake { holder, item, now } => {
            law_unstake_keeps_inv(s, holder, item, now);
        },
        Operation::Claim { holder } => {
            law_claim_keeps_inv(s, holder);
        },
    }
}

/// After any run of operations from the empty system, the invariant holds,
/// and every registered holder's count of locked items lies between zero and
/// the configured cap.
pub proof fn law_cap_at_all_times(ops: Seq<Operation>, holder: Key)
    ensures
        run(ops).inv(),
        run(ops).config is Some && run(ops).users.dom().contains(holder@) ==> 0 <= run(
            ops,
        ).users[holder@].active_locks <= run(ops).config->Some_0.max_locks,
    decreases ops.len(),
{
    if ops.len() == 0 {
        law_empty_inv();
    } else {
        law_cap_at_all_times(ops.drop_last(), holder);
        law_step_keeps_inv(run(ops.drop_last()), ops.last());
    }
}

} // verus!
