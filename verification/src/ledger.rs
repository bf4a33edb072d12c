//! The lock ledger: one record per locked item.
use vstd::prelude::*;
use crate::error::StakeError;
use crate::key::Key;
use crate::state::StakeAccount;
use crate::table::Table;

verus! {

/// The lock records, filed by item. Its view is the map from each locked
/// item's bytes to the item's record.
pub struct LockLedger {
    records: Table<StakeAccount>,
}

impl View for LockLedger {
    type V = Map<Seq<u8>, StakeAccount>;

    closed spec fn view(&self) -> Map<Seq<u8>, StakeAccount> {
        self.records@
    }
}

/// Filing a lock of `item_id` by `owner`: refused with `DuplicateLock` if the
/// item has a record.
pub open spec fn create_lock_spec(
    ledger: Map<Seq<u8>, StakeAccount>,
    owner: Key,
    item_id: Key,
    locked_at: i64,
) -> Result<Map<Seq<u8>, StakeAccount>, StakeError> {
    if ledger.dom().contains(item_id@) {
        Err(StakeError::DuplicateLock)
    } else {
        Ok(ledger.insert(item_id@, StakeAccount { owner, item_id, locked_at }))
    }
}

/// Dropping the record of `item_id` at the request of `requester`: refused
/// with `NotFound` if the item has no record, and with `NotOwner` if the
/// record names another owner.
pub open spec fn remove_lock_spec(
    ledger: Map<Seq<u8>, StakeAccount>,
    item_id: Key,
    requester: Key,
) -> Result<Map<Seq<u8>, StakeAccount>, StakeError> {
    if !ledger.dom().contains(item_id@) {
        Err(StakeError::NotFound)
    } else if ledger[item_id@].owner@ != requester@ {
        Err(StakeError::NotOwner)
    } else {
        Ok(ledger.remove(item_id@))
    }
}

impl LockLedger {
    /// The table is well formed, has finitely many records, and files every
    /// record under the item that the record names.
    pub closed spec fn wf(&self) -> bool {
        &&& self.records.wf()
        &&& self@.dom().finite()
        &&& forall|item: Seq<u8>| #[trigger]
            self@.dom().contains(item) ==> self@[item].item_id@ == item
    }

    /// What well-formedness says of the view.
    pub proof fn lemma_wf_view(&self)
        requires
            self.wf(),
        ensures
            self@.dom().finite(),
            forall|item: Seq<u8>| #[trigger]
                self@.dom().contains(item) ==> self@[item].item_id@ == item,
    {
    }

    /// The ledger without records.
    pub fn new() -> (l: LockLedger)
        ensures
            l.wf(),
            l@ == Map::<Seq<u8>, StakeAccount>::empty(),
    {
        LockLedger { records: Table::new() }
    }

    /// The record of `item_id`, if the item is locked.
    pub fn lock(&self, item_id: &Key) -> (r: Option<StakeAccount>)
        requires
            self.wf(),
        ensures
            r == (if self@.dom().contains(item_id@) {
                Some(self@[item_id@])
            } else {
                None
            }),
    {
        match self.records.get(item_id) {
            Some(l) => Some(*l),
            None => None,
        }
    }

    /// Files the lock of `item_id` by `owner` at `locked_at` and returns the
    /// record. Refused with `DuplicateLock` if the item has a record.
    pub fn create_lock(&mut self, owner: Key, item_id: Key, locked_at: i64) -> (r: Result<
        StakeAccount,
        StakeError,
    >)
        requires
            old(self).wf(),
        ensures
            final(self).wf(),
            match create_lock_spec(old(self)@, owner, item_id, locked_at) {
                Ok(next) => r == Ok::<StakeAccount, StakeError>(
                    StakeAccount { owner, item_id, locked_at },
                ) && final(self)@ == next,
                Err(e) => r == Err::<StakeAccount, StakeError>(e) && final(self)@ == old(self)@,
            },
    {
        if self.records.contains(&item_id) {
            return Err(StakeError::DuplicateLock);
        }
        let record = StakeAccount::new(owner, item_id, locked_at);
        self.records.put(item_id, record);
        Ok(record)
    }

    /// Drops the record of `item_id` at the request of `requester`. Refused
    /// with `NotFound` if the item has no record, and with `NotOwner` if the
    /// record names another owner.
    pub fn remove_lock(&mut self, item_id: &Key, requester: &Key) -> (r: Result<(), StakeError>)
        requires
            old(self).wf(),
        ensures
            final(self).wf(),
            match remove_lock_spec(old(self)@, *item_id, *requester) {
                Ok(next) => r is Ok && final(self)@ == next,
                Err(e) => r == Err::<(), StakeError>(e) && final(self)@ == old(self)@,
            },
    {
        match self.records.get(item_id) {
            None => {
                return Err(StakeError::NotFound);
            },
            Some(record) => {
                if !record.is_owned_by(requester) {
                    return Err(StakeError::NotOwner);
                }
            },
        }
        self.records.remove(item_id);
        Ok(())
    }
}

} // verus!
