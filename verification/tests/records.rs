use nft_staking::{
    verify_collection_membership, Collection, CustodyRequest, Key, LockLedger, Stake,
    StakeAccount, StakeConfig, StakeError, Table, Unstake, UserAccount,
};

fn id(b: u8) -> Key {
    Key::new([b; 32])
}

fn lock_ctx(active: u8, max: u8, verified: bool, existing: Option<StakeAccount>) -> Stake {
    Stake {
        user: id(1),
        mint: id(2),
        verified,
        config: StakeConfig::new(10, max, 3600),
        stake_account: existing,
        user_account: UserAccount { points: 5, active_locks: active },
    }
}

#[test]
fn key_same_compares_bytes() {
    let a = Key::new([3; 32]);
    let mut bytes = [3u8; 32];
    assert!(a.same(&Key::new(bytes)));
    bytes[0] = 4;
    assert!(!a.same(&Key::new(bytes)));
    bytes[0] = 3;
    bytes[31] = 0;
    assert!(!a.same(&Key::new(bytes)));
    assert_eq!(a.to_bytes(), [3u8; 32]);
}

#[test]
fn config_new_keeps_parameters() {
    let c = StakeConfig::new(10, 2, 3600);
    assert_eq!(c.points_per_lock, 10);
    assert_eq!(c.max_locks, 2);
    assert_eq!(c.freeze_period, 3600);
    assert!(c.has_room(&UserAccount { points: 0, active_locks: 1 }));
    assert!(!c.has_room(&UserAccount { points: 0, active_locks: 2 }));
}

#[test]
fn user_account_mutators() {
    let mut u = UserAccount::new();
    assert_eq!(u, UserAccount { points: 0, active_locks: 0 });
    u.increment_locks();
    u.increment_locks();
    assert_eq!(u.active_locks, 2);
    u.decrement_locks();
    assert_eq!(u.active_locks, 1);
    u.add_points(40);
    u.add_points(2);
    assert_eq!(u.points, 42);
    assert_eq!(u.reset_points(), 42);
    assert_eq!(u, UserAccount { points: 0, active_locks: 1 });
    assert_eq!(u.reset_points(), 0);
}

#[test]
fn user_account_claim() {
    let mut u = UserAccount { points: u32::MAX, active_locks: 3 };
    assert_eq!(u.claim(), Ok(u32::MAX));
    assert_eq!(u, UserAccount { points: 0, active_locks: 3 });
    assert_eq!(u.claim(), Err(StakeError::NothingToClaim));
    assert_eq!(u, UserAccount { points: 0, active_locks: 3 });
}

#[test]
fn stake_account_maturity() {
    let l = StakeAccount::new(id(1), id(2), 100);
    assert!(!l.is_matured(50, 149));
    assert!(l.is_matured(50, 150));
    assert!(l.is_matured(50, 151));
    assert!(l.is_matured(0, 100));
    assert!(!l.is_matured(0, 99));
    let early = StakeAccount::new(id(1), id(2), i64::MIN);
    assert!(early.is_matured(u32::MAX, i64::MAX));
    let late = StakeAccount::new(id(1), id(2), i64::MAX);
    assert!(!late.is_matured(0, i64::MIN));
    assert!(l.is_owned_by(&id(1)));
    assert!(!l.is_owned_by(&id(2)));
}

#[test]
fn stake_writes_record_and_counts() {
    let mut ctx = lock_ctx(1, 2, true, None);
    let r = ctx.stake(77);
    assert_eq!(
        r,
        Ok(vec![
            CustodyRequest::GrantDelegate { item: id(2) },
            CustodyRequest::Freeze { item: id(2) }
        ])
    );
    assert_eq!(ctx.stake_account, Some(StakeAccount { owner: id(1), item_id: id(2), locked_at: 77 }));
    assert_eq!(ctx.user_account, UserAccount { points: 5, active_locks: 2 });
    assert_eq!(ctx.config, StakeConfig::new(10, 2, 3600));
}

#[test]
fn stake_refusals_change_nothing() {
    let existing = StakeAccount::new(id(9), id(2), 1);
    let cases = [
        (lock_ctx(2, 2, true, None), StakeError::MaxLocksReached),
        (lock_ctx(3, 2, false, Some(existing)), StakeError::MaxLocksReached),
        (lock_ctx(0, 2, false, Some(existing)), StakeError::UnverifiedAsset),
        (lock_ctx(0, 2, true, Some(existing)), StakeError::DuplicateLock),
    ];
    for (before, error) in cases {
        let mut ctx = before;
        assert_eq!(ctx.stake(5), Err(error));
        assert_eq!(ctx, before);
    }
}

#[test]
fn stake_at_top_of_range() {
    let mut ctx = lock_ctx(254, 255, true, None);
    assert!(ctx.stake(0).is_ok());
    assert_eq!(ctx.user_account.active_locks, 255);
    ctx.stake_account = None;
    assert_eq!(ctx.stake(0), Err(StakeError::MaxLocksReached));
}

fn release_ctx(user: Key, existing: Option<StakeAccount>) -> Unstake {
    Unstake {
        user,
        mint: id(2),
        config: StakeConfig::new(10, 2, 3600),
        stake_account: existing,
        user_account: UserAccount { points: 5, active_locks: 1 },
    }
}

#[test]
fn unstake_credits_and_drops_record() {
    let mut ctx = release_ctx(id(1), Some(StakeAccount::new(id(1), id(2), 0)));
    assert_eq!(
        ctx.unstake(3600),
        Ok(vec![
            CustodyRequest::Thaw { item: id(2) },
            CustodyRequest::RevokeDelegate { item: id(2) }
        ])
    );
    assert_eq!(ctx.stake_account, None);
    assert_eq!(ctx.user_account, UserAccount { points: 15, active_locks: 0 });
}

#[test]
fn unstake_refusals_change_nothing() {
    let lock = StakeAccount::new(id(1), id(2), 0);
    let cases = [
        (release_ctx(id(1), None), 4000, StakeError::NotFound),
        (release_ctx(id(3), Some(lock)), 4000, StakeError::NotOwner),
        (release_ctx(id(3), Some(lock)), 10, StakeError::NotOwner),
        (release_ctx(id(1), Some(lock)), 3599, StakeError::FreezePeriodActive),
    ];
    for (before, now, error) in cases {
        let mut ctx = before;
        assert_eq!(ctx.unstake(now), Err(error));
        assert_eq!(ctx, before);
    }
}

#[test]
fn unstake_fills_balance_to_the_limit() {
    let mut ctx = release_ctx(id(1), Some(StakeAccount::new(id(1), id(2), 0)));
    ctx.user_account.points = u32::MAX - 10;
    assert!(ctx.unstake(3600).is_ok());
    assert_eq!(ctx.user_account.points, u32::MAX);
}

#[test]
fn error_classes() {
    assert!(StakeError::MaxLocksReached.is_policy_violation());
    assert!(StakeError::FreezePeriodActive.is_policy_violation());
    for e in [
        StakeError::AlreadyInitialized,
        StakeError::AlreadyRegistered,
        StakeError::DuplicateLock,
        StakeError::NotFound,
        StakeError::NotOwner,
        StakeError::NothingToClaim,
        StakeError::UnverifiedAsset,
    ] {
        assert!(!e.is_policy_violation());
    }
}

#[test]
fn table_put_get_remove() {
    let mut t: Table<u32> = Table::new();
    assert_eq!(t.get(&id(1)), None);
    assert!(!t.contains(&id(1)));
    t.put(id(1), 10);
    t.put(id(2), 20);
    t.put(id(3), 30);
    assert_eq!(t.get(&id(1)), Some(&10));
    assert_eq!(t.get(&id(2)), Some(&20));
    t.put(id(2), 21);
    assert_eq!(t.get(&id(2)), Some(&21));
    assert_eq!(t.get(&id(3)), Some(&30));
    t.remove(&id(1));
    assert_eq!(t.get(&id(1)), None);
    assert_eq!(t.get(&id(2)), Some(&21));
    assert_eq!(t.get(&id(3)), Some(&30));
    t.remove(&id(1));
    t.remove(&id(3));
    assert!(t.contains(&id(2)));
    assert!(!t.contains(&id(3)));
}

#[test]
fn collection_membership() {
    let wanted = id(8);
    assert!(verify_collection_membership(Some(Collection { key: id(8), verified: true }), &wanted));
    assert!(!verify_collection_membership(Some(Collection { key: id(8), verified: false }), &wanted));
    assert!(!verify_collection_membership(Some(Collection { key: id(9), verified: true }), &wanted));
    assert!(!verify_collection_membership(None, &wanted));
}

#[test]
fn ledger_files_one_record_per_item() {
    let mut ledger = LockLedger::new();
    assert_eq!(ledger.lock(&id(2)), None);
    assert_eq!(
        ledger.create_lock(id(1), id(2), 50),
        Ok(StakeAccount { owner: id(1), item_id: id(2), locked_at: 50 })
    );
    assert_eq!(ledger.create_lock(id(1), id(2), 60), Err(StakeError::DuplicateLock));
    assert_eq!(ledger.create_lock(id(3), id(2), 70), Err(StakeError::DuplicateLock));
    assert_eq!(ledger.lock(&id(2)), Some(StakeAccount::new(id(1), id(2), 50)));
    assert_eq!(ledger.create_lock(id(3), id(4), 70), Ok(StakeAccount::new(id(3), id(4), 70)));
    assert_eq!(ledger.lock(&id(4)), Some(StakeAccount::new(id(3), id(4), 70)));
}

#[test]
fn ledger_removes_for_owner_only() {
    let mut ledger = LockLedger::new();
    assert_eq!(ledger.remove_lock(&id(2), &id(1)), Err(StakeError::NotFound));
    ledger.create_lock(id(1), id(2), 50).unwrap();
    assert_eq!(ledger.remove_lock(&id(2), &id(3)), Err(StakeError::NotOwner));
    assert_eq!(ledger.lock(&id(2)), Some(StakeAccount::new(id(1), id(2), 50)));
    assert_eq!(ledger.remove_lock(&id(2), &id(1)), Ok(()));
    assert_eq!(ledger.lock(&id(2)), None);
    assert_eq!(ledger.remove_lock(&id(2), &id(1)), Err(StakeError::NotFound));
    assert_eq!(ledger.create_lock(id(3), id(2), 80), Ok(StakeAccount::new(id(3), id(2), 80)));
}
