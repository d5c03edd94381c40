//! Errors of the account tables and of the record decoder.
use vstd::prelude::*;

verus! {

/// Why a record could not be applied to the account and transaction tables.
#[derive(Debug, Clone, Copy, PartialEq, Eq, Structural)]
pub enum DBError {
    /// The record asks for something the ledger refuses by policy, such as
    /// disputing a transaction that is already under dispute.
    OperationNotPermitted,
    /// An amount below zero was handed to a credit or a debit.
    NegativeAmountEncountered,
    /// A deposit reused the id of a logged transaction.
    TransactionAlreadyExists,
    /// The referenced transaction is not in the log.
    TransactionNotFound,
    /// A chargeback or resolve referenced a transaction that is not disputed.
    TransactionNotInDispute,
    /// A withdrawal asked for more than the available funds.
    NotEnoughAvailableCredit,
    /// A release asked for more than the held funds.
    NotEnoughHeldValue,
    /// The referenced client has no account.
    ClientNotFound,
    /// The record's client is not the client of the referenced transaction.
    ClientIdMismatch,
    /// A balance would leave the range of `i64`.
    AmountOverflow,
}

/// Why a raw row could not be decoded into a record.
#[derive(Debug, Clone, Copy, PartialEq, Eq, Structural)]
pub enum RecordError {
    /// A field is missing or does not have the expected shape.
    Parse,
    /// The row is well formed but its amount is negative.
    Invalid,
}

} // verus!
