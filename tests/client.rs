use ledger::client::amount_parts;
use ledger::{ClientAccountState, DBError};

#[test]
fn test_sub() {
    let mut cas = ClientAccountState::new();
    cas.add(30000).unwrap();
    cas.sub(10000).unwrap();
    assert_eq!(cas.available(), 20000);
    assert_eq!(cas.total(), 20000);
}

#[test]
fn test_add() {
    let mut cas = ClientAccountState::new();
    cas.add(100000).unwrap();
    assert_eq!(cas.available(), 100000);
    assert_eq!(cas.total(), 100000);
    assert!(cas.add(-10000).is_err());
}

#[test]
fn test_hold() {
    let mut cas = ClientAccountState::new();
    cas.add(30000).unwrap();
    cas.hold(10000).unwrap();

    assert_eq!(cas.total(), 30000);
    assert_eq!(cas.held(), 10000);
}

#[test]
fn new_account_is_empty_and_unlocked() {
    let cas = ClientAccountState::new();
    assert_eq!(cas.available(), 0);
    assert_eq!(cas.held(), 0);
    assert_eq!(cas.total(), 0);
    assert!(!cas.locked());
}

#[test]
fn negative_amounts_are_refused_and_change_nothing() {
    let mut cas = ClientAccountState::new();
    cas.add(50000).unwrap();
    assert_eq!(cas.add(-1), Err(DBError::NegativeAmountEncountered));
    assert_eq!(cas.sub(-1), Err(DBError::NegativeAmountEncountered));
    assert_eq!(cas.available(), 50000);
    assert_eq!(cas.total(), 50000);
}

#[test]
fn sub_does_not_check_sufficiency() {
    let mut cas = ClientAccountState::new();
    cas.add(10000).unwrap();
    cas.sub(30000).unwrap();
    assert_eq!(cas.available(), -20000);
    assert_eq!(cas.total(), -20000);
}

#[test]
fn unhold_returns_held_funds_and_guards_against_excess() {
    let mut cas = ClientAccountState::new();
    cas.add(30000).unwrap();
    cas.hold(20000).unwrap();
    assert_eq!(cas.unhold(30000), Err(DBError::NotEnoughHeldValue));
    assert_eq!(cas.held(), 20000);
    cas.unhold(20000).unwrap();
    assert_eq!(cas.held(), 0);
    assert_eq!(cas.available(), 30000);
    assert_eq!(cas.total(), 30000);
}

#[test]
fn lock_is_idempotent_and_unlock_lifts_it() {
    let mut cas = ClientAccountState::new();
    cas.lock();
    cas.lock();
    assert!(cas.locked());
    cas.unlock();
    assert!(!cas.locked());
}

#[test]
fn overflow_is_refused_and_changes_nothing() {
    let mut cas = ClientAccountState::new();
    cas.add(i64::MAX).unwrap();
    assert_eq!(cas.add(1), Err(DBError::AmountOverflow));
    assert_eq!(cas.available(), i64::MAX);
    assert_eq!(cas.hold(-1), Err(DBError::AmountOverflow));
    assert_eq!(cas.held(), 0);
}

#[test]
fn amount_parts_splits_fixed_point_values() {
    assert_eq!(amount_parts(123456), (false, 12, 3456));
    assert_eq!(amount_parts(-5), (true, 0, 5));
    assert_eq!(amount_parts(0), (false, 0, 0));
    assert_eq!(amount_parts(i64::MIN), (true, 922337203685477, 5808));
}
