use std::any::TypeId;
use world_dispatcher::Access;
use world_dispatcher::BorrowLedger;
use world_dispatcher::EcsError;

#[test]
fn many_readers_are_granted() {
    let key = TypeId::of::<u32>();
    let mut ledger = BorrowLedger::new();
    for _ in 0..5 {
        assert!(ledger.acquire(key, Access::Read).is_ok());
    }
    assert_eq!(ledger.len(), 5);
}

#[test]
fn writer_excludes_everybody() {
    let key = TypeId::of::<u32>();
    let mut ledger = BorrowLedger::new();
    assert!(ledger.acquire(key, Access::Write).is_ok());
    assert!(matches!(
        ledger.acquire(key, Access::Write),
        Err(EcsError::AlreadyBorrowed)
    ));
    assert!(matches!(
        ledger.acquire(key, Access::Read),
        Err(EcsError::AlreadyBorrowed)
    ));
    assert_eq!(ledger.len(), 1);
}

#[test]
fn reader_excludes_writer() {
    let key = TypeId::of::<u32>();
    let mut ledger = BorrowLedger::new();
    assert!(ledger.acquire(key, Access::Read).is_ok());
    assert!(!ledger.admits(&key, Access::Write));
    assert!(ledger.admits(&key, Access::Read));
    assert!(matches!(
        ledger.acquire(key, Access::Write),
        Err(EcsError::AlreadyBorrowed)
    ));
    assert_eq!(ledger.len(), 1);
}

#[test]
fn other_resources_are_not_affected() {
    let mut ledger = BorrowLedger::new();
    assert!(ledger.acquire(TypeId::of::<u32>(), Access::Write).is_ok());
    assert!(ledger.acquire(TypeId::of::<u64>(), Access::Write).is_ok());
    assert!(ledger.acquire(TypeId::of::<i32>(), Access::Read).is_ok());
    assert_eq!(ledger.len(), 3);
}

#[test]
fn release_restores_eligibility() {
    let key = TypeId::of::<u32>();
    let mut ledger = BorrowLedger::new();
    assert!(ledger.acquire(key, Access::Write).is_ok());
    assert!(!ledger.release(&key, Access::Read));
    assert!(ledger.release(&key, Access::Write));
    assert!(!ledger.release(&key, Access::Write));
    assert_eq!(ledger.len(), 0);
    assert!(ledger.acquire(key, Access::Read).is_ok());
    assert!(ledger.acquire(key, Access::Read).is_ok());
    assert!(ledger.release(&key, Access::Read));
    assert!(!ledger.admits(&key, Access::Write));
    assert!(ledger.release(&key, Access::Read));
    assert!(ledger.admits(&key, Access::Write));
}

#[test]
fn clear_releases_everything() {
    let key = TypeId::of::<u32>();
    let mut ledger = BorrowLedger::new();
    assert!(ledger.acquire(key, Access::Read).is_ok());
    assert!(ledger.acquire(TypeId::of::<u8>(), Access::Write).is_ok());
    ledger.clear();
    assert_eq!(ledger.len(), 0);
    assert!(ledger.acquire(key, Access::Write).is_ok());
}
