use ledger::protocol::Transaction;
use ledger::TransactionKind;

#[test]
fn test_transaction_parsing() {
    let byte_record: &[u8] = b"withdrawal";
    assert_eq!(
        TransactionKind::new(byte_record),
        Some(TransactionKind::Withdrawal)
    );
}

#[test]
fn test_bad_transaction_parsing() {
    let utt = b"Unknown_transaction_type";
    assert_eq!(TransactionKind::new(utt), None);

    let empty = b"";
    assert_eq!(TransactionKind::new(empty), None);
}

#[test]
fn every_kind_name_is_recognised() {
    assert_eq!(TransactionKind::new(b"deposit"), Some(TransactionKind::Deposit));
    assert_eq!(TransactionKind::new(b"dispute"), Some(TransactionKind::Dispute));
    assert_eq!(TransactionKind::new(b"resolve"), Some(TransactionKind::Resolve));
    assert_eq!(TransactionKind::new(b"chargeback"), Some(TransactionKind::Chargeback));
    assert_eq!(TransactionKind::new(b"Deposit"), None);
    assert_eq!(TransactionKind::new(b"deposits"), None);
}

#[test]
fn transaction_dispute_flag_toggles() {
    let mut t = Transaction::new(TransactionKind::Deposit, 4, 25000);
    assert_eq!(t.client_id(), 4);
    assert_eq!(t.amount(), 25000);
    assert!(!t.is_in_dispute());
    t.set_dispute(true);
    assert!(t.is_in_dispute());
    t.set_dispute(false);
    assert!(!t.is_in_dispute());
}
