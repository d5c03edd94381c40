//! Transaction kinds and the logged form of a deposit.
use crate::record::Record;
use vstd::prelude::*;

verus! {

/// The kinds of record the ledger knows how to apply.
#[derive(Debug, Clone, Copy, PartialEq, Eq, Structural)]
pub enum TransactionKind {
    /// Adds funds to a client's account.
    Deposit,
    /// Removes available funds from a client's account.
    Withdrawal,
    /// Freezes the amount of an earlier deposit until the dispute ends.
    Dispute,
    /// Ends a dispute by returning the frozen amount to the available funds.
    Resolve,
    /// Ends a dispute by removing the frozen amount and locking the account.
    Chargeback,
}

/// The lower-case ASCII name of each kind, as it appears in an input row.
pub open spec fn kind_name(k: TransactionKind) -> Seq<u8> {
    match k {
        TransactionKind::Deposit => seq![100u8, 101, 112, 111, 115, 105, 116],
        TransactionKind::Withdrawal => seq![119u8, 105, 116, 104, 100, 114, 97, 119, 97, 108],
        TransactionKind::Dispute => seq![100u8, 105, 115, 112, 117, 116, 101],
        TransactionKind::Resolve => seq![114u8, 101, 115, 111, 108, 118, 101],
        TransactionKind::Chargeback => seq![99u8, 104, 97, 114, 103, 101, 98, 97, 99, 107],
    }
}

/// The kind whose name is exactly `s`, if there is one.
pub open spec fn kind_of_name(s: Seq<u8>) -> Option<TransactionKind> {
    if s == kind_name(TransactionKind::Deposit) {
        Some(TransactionKind::Deposit)
    } else if s == kind_name(TransactionKind::Withdrawal) {
        Some(TransactionKind::Withdrawal)
    } else if s == kind_name(TransactionKind::Dispute) {
        Some(TransactionKind::Dispute)
    } else if s == kind_name(TransactionKind::Resolve) {
        Some(TransactionKind::Resolve)
    } else if s == kind_name(TransactionKind::Chargeback) {
        Some(TransactionKind::Chargeback)
    } else {
        None
    }
}

/// Whether the bytes of `s` are exactly those of `w`.
pub(crate) fn bytes_equal(s: &[u8], w: &[u8]) -> (r: bool)
    ensures
        r == (s@ == w@),
{
    if s.len() != w.len() {
        return false;
    }
    let mut i: usize = 0;
    while i < s.len()
        invariant
            s@.len() == w@.len(),
            i <= s@.len(),
            forall|j: int| 0 <= j < i ==> s@[j] == w@[j],
        decreases s@.len() - i,
    {
        if s[i] != w[i] {
            return false;
        }
        i = i + 1;
    }
    assert(s@ =~= w@);
    true
}

impl TransactionKind {
    /// The kind named by the bytes `trans`, or `None` for an unknown name.
    pub fn new(trans: &[u8]) -> (r: Option<Self>)
        ensures
            r == kind_of_name(trans@),
    {
        let deposit: [u8; 7] = [100, 101, 112, 111, 115, 105, 116];
        let withdrawal: [u8; 10] = [119, 105, 116, 104, 100, 114, 97, 119, 97, 108];
        let dispute: [u8; 7] = [100, 105, 115, 112, 117, 116, 101];
        let resolve: [u8; 7] = [114, 101, 115, 111, 108, 118, 101];
        let chargeback: [u8; 10] = [99, 104, 97, 114, 103, 101, 98, 97, 99, 107];
        assert(deposit@ =~= kind_name(TransactionKind::Deposit));
        assert(withdrawal@ =~= kind_name(TransactionKind::Withdrawal));
        assert(dispute@ =~= kind_name(TransactionKind::Dispute));
        assert(resolve@ =~= kind_name(TransactionKind::Resolve));
        assert(chargeback@ =~= kind_name(TransactionKind::Chargeback));
        if bytes_equal(trans, deposit.as_slice()) {
            Some(TransactionKind::Deposit)
        } else if bytes_equal(trans, withdrawal.as_slice()) {
            Some(TransactionKind::Withdrawal)
        } else if bytes_equal(trans, dispute.as_slice()) {
            Some(TransactionKind::Dispute)
        } else if bytes_equal(trans, resolve.as_slice()) {
            Some(TransactionKind::Resolve)
        } else if bytes_equal(trans, chargeback.as_slice()) {
            Some(TransactionKind::Chargeback)
        } else {
            None
        }
    }
}

/// The mathematical content of a logged transaction.
pub struct TxModel {
    pub kind: TransactionKind,
    pub client_id: u16,
    pub amount: int,
    pub disputed: bool,
}

/// A transaction kept in the log so that it can be disputed later.
#[derive(Debug, Clone, Copy)]
pub struct Transaction {
    kind: TransactionKind,
    client_id: u16,
    amount: i64,
    disputed: bool,
}

impl View for Transaction {
    type V = TxModel;

    closed spec fn view(&self) -> TxModel {
        TxModel {
            kind: self.kind,
            client_id: self.client_id,
            amount: self.amount as int,
            disputed: self.disputed,
        }
    }
}

impl Transaction {
    /// A transaction that is not under dispute.
    pub fn new(kind: TransactionKind, client_id: u16, amount: i64) -> (r: Self)
        ensures
            r@ == (TxModel { kind, client_id, amount: amount as int, disputed: false }),
    {
        Transaction { kind, client_id, amount, disputed: false }
    }

    /// The undisputed log entry for `record`.
    pub fn from_record(record: &Record) -> (r: Self)
        ensures
            r@ == (TxModel {
                kind: record.transaction_kind,
                client_id: record.client,
                amount: record.amount as int,
                disputed: false,
            }),
    {
        Transaction {
            kind: record.transaction_kind,
            client_id: record.client,
            amount: record.amount,
            disputed: false,
        }
    }

    pub fn amount(&self) -> (r: i64)
        ensures
            r == self@.amount,
    {
        self.amount
    }

    pub fn client_id(&self) -> (r: u16)
        ensures
            r == self@.client_id,
    {
        self.client_id
    }

    /// Marks the transaction as disputed or not.
    pub fn set_dispute(&mut self, b: bool)
        ensures
            final(self)@ == (TxModel { disputed: b, ..old(self)@ }),
    {
        self.disputed = b;
    }

    pub fn is_in_dispute(&self) -> (r: bool)
        ensures
            r == self@.disputed,
    {
        self.disputed
    }
}

} // verus!
