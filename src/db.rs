//! The two tables of the ledger: client accounts and logged transactions.
use crate::client::ClientAccountState;
use crate::protocol::Transaction;
use std::collections::BTreeMap;
use vstd::prelude::*;

verus! {

/// Accounts keyed by client id and disputable transactions keyed by
/// transaction id. Both maps iterate in ascending key order.
pub struct DB {
    client_db: BTreeMap<u16, ClientAccountState>,
    transaction_db: BTreeMap<u32, Transaction>,
}

impl DB {
    /// The accounts table.
    pub closed spec fn clients(&self) -> Map<u16, ClientAccountState> {
        self.client_db@
    }

    /// The transaction log.
    pub closed spec fn transactions(&self) -> Map<u32, Transaction> {
        self.transaction_db@
    }

    /// Two empty tables.
    pub fn new() -> (r: Self)
        ensures
            r.clients() == Map::<u16, ClientAccountState>::empty(),
            r.transactions() == Map::<u32, Transaction>::empty(),
    {
        DB { client_db: BTreeMap::new(), transaction_db: BTreeMap::new() }
    }

    pub fn get_client_db(&self) -> (r: &BTreeMap<u16, ClientAccountState>)
        ensures
            r@ == self.clients(),
    {
        &self.client_db
    }

    pub fn get_transaction_db(&self) -> (r: &BTreeMap<u32, Transaction>)
        ensures
            r@ == self.transactions(),
    {
        &self.transaction_db
    }

    /// Stores `account` as the account of `client`.
    pub fn put_client(&mut self, client: u16, account: ClientAccountState)
        ensures
            final(self).clients() == old(self).clients().insert(client, account),
            final(self).transactions() == old(self).transactions(),
    {
        self.client_db.insert(client, account);
    }

    /// Stores `trx` as the transaction with id `tx`.
    pub fn put_transaction(&mut self, tx: u32, trx: Transaction)
        ensures
            final(self).transactions() == old(self).transactions().insert(tx, trx),
            final(self).clients() == old(self).clients(),
    {
        self.transaction_db.insert(tx, trx);
    }
}

} // verus!
