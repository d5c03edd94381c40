//! The ledger state machine: applies one record at a time to the account
//! table and the transaction log, atomically.
//!
//! Policy: only deposits are logged, so only deposits can be disputed. A
//! transaction already under dispute cannot be disputed again. A locked
//! account still accepts records; the lock is a marker that consumers of the
//! ledger honour.
use crate::client::{AccountModel, ClientAccountState};
use crate::db::DB;
use crate::error::DBError;
use crate::protocol::{Transaction, TransactionKind, TxModel};
use crate::record::Record;
use vstd::prelude::*;

verus! {

/// The mathematical content of the ledger: every account by client id and
/// every logged transaction by transaction id.
pub struct LedgerModel {
    pub accounts: Map<u16, AccountModel>,
    pub log: Map<u32, TxModel>,
}

impl LedgerModel {
    /// A ledger with no account and no logged transaction.
    pub open spec fn empty() -> LedgerModel {
        LedgerModel { accounts: Map::empty(), log: Map::empty() }
    }

    /// Every account is well formed and holds no negative amount, and every
    /// logged amount is a non-negative `i64`.
    pub open spec fn inv(self) -> bool {
        &&& forall|c: u16| #[trigger]
            self.accounts.contains_key(c) ==> self.accounts[c].wf() && self.accounts[c].held >= 0
        &&& forall|t: u32| #[trigger]
            self.log.contains_key(t) ==> 0 <= self.log[t].amount <= i64::MAX
    }

    /// The account of `c`, or a fresh one if `c` has none yet.
    pub open spec fn account_or_new(self, c: u16) -> AccountModel {
        if self.accounts.contains_key(c) {
            self.accounts[c]
        } else {
            AccountModel::zero()
        }
    }

    /// The ledger with `a` as the account of `c`.
    pub open spec fn with_account(self, c: u16, a: AccountModel) -> LedgerModel {
        LedgerModel { accounts: self.accounts.insert(c, a), ..self }
    }

    /// The ledger with `t` as the logged transaction `tx`.
    pub open spec fn with_tx(self, tx: u32, t: TxModel) -> LedgerModel {
        LedgerModel { log: self.log.insert(tx, t), ..self }
    }

    /// The account part of a deposit: credits `x` to the account of `c`,
    /// opening it if needed.
    pub open spec fn credit_client(self, c: u16, x: int) -> Result<LedgerModel, DBError> {
        match self.account_or_new(c).credit(x) {
            Ok(a) => Ok(self.with_account(c, a)),
            Err(e) => Err(e),
        }
    }

    /// The log part of a deposit: logs it under `tx` unless that id is taken.
    pub open spec fn log_deposit(self, c: u16, tx: u32, x: int) -> Result<LedgerModel, DBError> {
        if self.log.contains_key(tx) {
            Err(DBError::TransactionAlreadyExists)
        } else {
            Ok(
                self.with_tx(
                    tx,
                    TxModel { kind: TransactionKind::Deposit, client_id: c, amount: x, disputed: false },
                ),
            )
        }
    }

    /// A deposit of `x` to `c` under id `tx`.
    pub open spec fn deposit(self, c: u16, tx: u32, x: int) -> Result<LedgerModel, DBError> {
        if self.log.contains_key(tx) {
            Err(DBError::TransactionAlreadyExists)
        } else {
            match self.credit_client(c, x) {
                Ok(m) => m.log_deposit(c, tx, x),
                Err(e) => Err(e),
            }
        }
    }

    /// A withdrawal of `x` from the existing account of `c`, refused when
    /// fewer than `x` are available.
    pub open spec fn withdraw(self, c: u16, x: int) -> Result<LedgerModel, DBError> {
        if !self.accounts.contains_key(c) {
            Err(DBError::ClientNotFound)
        } else if self.accounts[c].available < x {
            Err(DBError::NotEnoughAvailableCredit)
        } else {
            match self.accounts[c].debit(x) {
                Ok(a) => Ok(self.with_account(c, a)),
                Err(e) => Err(e),
            }
        }
    }

    /// The checks shared by dispute, resolve and chargeback: the transaction
    /// is logged, it belongs to `c`, and `c` has an account.
    pub open spec fn reference_error(self, c: u16, tx: u32) -> Option<DBError> {
        if !self.log.contains_key(tx) {
            Some(DBError::TransactionNotFound)
        } else if self.log[tx].client_id != c {
            Some(DBError::ClientIdMismatch)
        } else if !self.accounts.contains_key(c) {
            Some(DBError::ClientNotFound)
        } else {
            None
        }
    }

    /// Opens a dispute on `tx`: its amount moves from available to held.
    pub open spec fn dispute(self, c: u16, tx: u32) -> Result<LedgerModel, DBError> {
        match self.reference_error(c, tx) {
            Some(e) => Err(e),
            None => if self.log[tx].disputed {
                Err(DBError::OperationNotPermitted)
            } else {
                match self.accounts[c].hold(self.log[tx].amount) {
                    Ok(a) => Ok(
                        self.with_account(c, a).with_tx(tx, TxModel { disputed: true, ..self.log[tx] }),
                    ),
                    Err(e) => Err(e),
                }
            },
        }
    }

    /// Ends the dispute on `tx` in the client's favour: its amount moves
    /// back from held to available.
    pub open spec fn resolve(self, c: u16, tx: u32) -> Result<LedgerModel, DBError> {
        match self.reference_error(c, tx) {
            Some(e) => Err(e),
            None => if !self.log[tx].disputed {
                Err(DBError::TransactionNotInDispute)
            } else {
                match self.accounts[c].release(self.log[tx].amount) {
                    Ok(a) => Ok(
                        self.with_account(c, a).with_tx(
                            tx,
                            TxModel { disputed: false, ..self.log[tx] },
                        ),
                    ),
                    Err(e) => Err(e),
                }
            },
        }
    }

    /// Ends the dispute on `tx` against the client: its amount leaves the
    /// held funds and the total, and the account is locked. The transaction
    /// stays logged and marked as disputed.
    pub open spec fn chargeback(self, c: u16, tx: u32) -> Result<LedgerModel, DBError> {
        match self.reference_error(c, tx) {
            Some(e) => Err(e),
            None => if !self.log[tx].disputed {
                Err(DBError::TransactionNotInDispute)
            } else {
                match self.accounts[c].release(self.log[tx].amount) {
                    Ok(a1) => match a1.debit(self.log[tx].amount) {
                        Ok(a2) => Ok(self.with_account(c, a2.lock())),
                        Err(e) => Err(e),
                    },
                    Err(e) => Err(e),
                }
            },
        }
    }

    /// The effect of one record: the new ledger, or the reason it is refused.
    pub open spec fn apply(self, r: Record) -> Result<LedgerModel, DBError> {
        match r.transaction_kind {
            TransactionKind::Deposit => self.deposit(r.client, r.tx, r.amount as int),
            TransactionKind::Withdrawal => self.withdraw(r.client, r.amount as int),
            TransactionKind::Dispute => self.dispute(r.client, r.tx),
            TransactionKind::Resolve => self.resolve(r.client, r.tx),
            TransactionKind::Chargeback => self.chargeback(r.client, r.tx),
        }
    }

    /// The account part of a record: a deposit is credited without being
    /// logged; every other kind has its full effect.
    pub open spec fn update_accounts(self, r: Record) -> Result<LedgerModel, DBError> {
        match r.transaction_kind {
            TransactionKind::Deposit => self.credit_client(r.client, r.amount as int),
            _ => self.apply(r),
        }
    }

    /// The log part of a record: a deposit is logged; other kinds are not.
    pub open spec fn update_log(self, r: Record) -> Result<LedgerModel, DBError> {
        match r.transaction_kind {
            TransactionKind::Deposit => self.log_deposit(r.client, r.tx, r.amount as int),
            _ => Ok(self),
        }
    }
}

/// Applies decoded records to the ledger's tables.
pub struct Engine {
    db: DB,
}

impl View for Engine {
    type V = LedgerModel;

    closed spec fn view(&self) -> LedgerModel {
        LedgerModel {
            accounts: self.db.clients().map_values(|a: ClientAccountState| a@),
            log: self.db.transactions().map_values(|t: Transaction| t@),
        }
    }
}

impl Engine {
    /// An engine with empty tables.
    pub fn new() -> (r: Self)
        ensures
            r@ == LedgerModel::empty(),
            r@.inv(),
    {
        let e = Engine { db: DB::new() };
        assert(e@.accounts =~= Map::empty());
        assert(e@.log =~= Map::empty());
        e
    }

    /// The tables, for reading.
    pub fn get_db(&self) -> (r: &DB)
        ensures
            r.clients().map_values(|a: ClientAccountState| a@) == self@.accounts,
            r.transactions().map_values(|t: Transaction| t@) == self@.log,
    {
        &self.db
    }

    /// The account of `client`, if it has one.
    pub fn account(&self, client: u16) -> (r: Option<ClientAccountState>)
        ensures
            match r {
                Some(a) => self@.accounts.contains_key(client) && a@ == self@.accounts[client],
                None => !self@.accounts.contains_key(client),
            },
    {
        match self.db.get_client_db().get(&client) {
            Some(a) => Some(*a),
            None => None,
        }
    }

    /// The logged transaction `tx`, if there is one.
    pub fn transaction(&self, tx: u32) -> (r: Option<Transaction>)
        ensures
            match r {
                Some(t) => self@.log.contains_key(tx) && t@ == self@.log[tx],
                None => !self@.log.contains_key(tx),
            },
    {
        match self.db.get_transaction_db().get(&tx) {
            Some(t) => Some(*t),
            None => None,
        }
    }

    /// Stores `acc` as the account of `client`.
    fn store_account(&mut self, client: u16, acc: ClientAccountState)
        ensures
            final(self)@ == old(self)@.with_account(client, acc@),
    {
        self.db.put_client(client, acc);
        assert(final(self)@.accounts =~= old(self)@.accounts.insert(client, acc@));
        assert(final(self)@.log =~= old(self)@.log);
    }

    /// Stores `trx` as the logged transaction `tx`.
    fn store_transaction(&mut self, tx: u32, trx: Transaction)
        ensures
            final(self)@ == old(self)@.with_tx(tx, trx@),
    {
        self.db.put_transaction(tx, trx);
        assert(final(self)@.log =~= old(self)@.log.insert(tx, trx@));
        assert(final(self)@.accounts =~= old(self)@.accounts);
    }

    /// The account of `client`, or `err` if it has none.
    fn existing_account(&self, client: u16, err: DBError) -> (r: Result<ClientAccountState, DBError>)
        ensures
            match r {
                Ok(a) => self@.accounts.contains_key(client) && a@ == self@.accounts[client],
                Err(e) => e == err && !self@.accounts.contains_key(client),
            },
    {
        match self.account(client) {
            Some(a) => Ok(a),
            None => Err(err),
        }
    }

    /// The logged transaction `tx` when it belongs to `client` and `client`
    /// has an account, with that account; else the first check that fails.
    fn referenced(&self, client: u16, tx: u32) -> (r: Result<(Transaction, ClientAccountState), DBError>)
        ensures
            match r {
                Ok((t, a)) => self@.reference_error(client, tx) is None && t@ == self@.log[tx]
                    && a@ == self@.accounts[client],
                Err(e) => self@.reference_error(client, tx) == Some(e),
            },
    {
        let trx = match self.transaction(tx) {
            Some(t) => t,
            None => return Err(DBError::TransactionNotFound),
        };
        if trx.client_id() != client {
            return Err(DBError::ClientIdMismatch);
        }
        let acc = match self.existing_account(client, DBError::ClientNotFound) {
            Ok(a) => a,
            Err(e) => return Err(e),
        };
        Ok((trx, acc))
    }

    /// Applies the account part of `record`: a deposit is credited (opening
    /// the account if needed) but not logged; a withdrawal, dispute, resolve
    /// or chargeback has its full effect. On failure nothing changes.
    pub fn update_client_db(&mut self, record: &Record) -> (r: Result<(), DBError>)
        requires
            old(self)@.inv(),
        ensures
            match old(self)@.update_accounts(*record) {
                Ok(m) => r is Ok && final(self)@ == m,
                Err(e) => r == Err::<(), DBError>(e) && final(self)@ == old(self)@,
            },
    {
        let client = record.client;
        match record.transaction_kind {
            TransactionKind::Deposit => {
                let mut acc = match self.account(client) {
                    Some(a) => a,
                    None => ClientAccountState::new(),
                };
                match acc.add(record.amount) {
                    Ok(()) => {},
                    Err(e) => return Err(e),
                }
                self.store_account(client, acc);
                Ok(())
            },
            TransactionKind::Withdrawal => {
                let mut acc = match self.existing_account(client, DBError::ClientNotFound) {
                    Ok(a) => a,
                    Err(e) => return Err(e),
                };
                if acc.available() < record.amount {
                    return Err(DBError::NotEnoughAvailableCredit);
                }
                match acc.sub(record.amount) {
                    Ok(()) => {},
                    Err(e) => return Err(e),
                }
                self.store_account(client, acc);
                Ok(())
            },
            TransactionKind::Dispute => {
                let (mut trx, mut acc) = match self.referenced(client, record.tx) {
                    Ok(p) => p,
                    Err(e) => return Err(e),
                };
                if trx.is_in_dispute() {
                    return Err(DBError::OperationNotPermitted);
                }
                match acc.hold(trx.amount()) {
                    Ok(()) => {},
                    Err(e) => return Err(e),
                }
                trx.set_dispute(true);
                self.store_account(client, acc);
                self.store_transaction(record.tx, trx);
                Ok(())
            },
            TransactionKind::Resolve => {
                let (mut trx, mut acc) = match self.referenced(client, record.tx) {
                    Ok(p) => p,
                    Err(e) => return Err(e),
                };
                if !trx.is_in_dispute() {
                    return Err(DBError::TransactionNotInDispute);
                }
                match acc.unhold(trx.amount()) {
                    Ok(()) => {},
                    Err(e) => return Err(e),
                }
                trx.set_dispute(false);
                self.store_account(client, acc);
                self.store_transaction(record.tx, trx);
                Ok(())
            },
            TransactionKind::Chargeback => {
                let (trx, mut acc) = match self.referenced(client, record.tx) {
                    Ok(p) => p,
                    Err(e) => return Err(e),
                };
                if !trx.is_in_dispute() {
                    return Err(DBError::TransactionNotInDispute);
                }
                match acc.unhold(trx.amount()) {
                    Ok(()) => {},
                    Err(e) => return Err(e),
                }
                match acc.sub(trx.amount()) {
                    Ok(()) => {},
                    Err(e) => return Err(e),
                }
                acc.lock();
                self.store_account(client, acc);
                Ok(())
            },
        }
    }

    /// Applies the log part of `record`: a deposit is logged under its
    /// transaction id, which must be free; other kinds change nothing.
    pub fn update_transaction_db(&mut self, record: &Record) -> (r: Result<(), DBError>)
        ensures
            match old(self)@.update_log(*record) {
                Ok(m) => r is Ok && final(self)@ == m,
                Err(e) => r == Err::<(), DBError>(e) && final(self)@ == old(self)@,
            },
    {
        if record.transaction_kind == TransactionKind::Deposit {
            match self.transaction(record.tx) {
                Some(_) => return Err(DBError::TransactionAlreadyExists),
                None => {
                    let trx = Transaction::from_record(record);
                    self.store_transaction(record.tx, trx);
                },
            }
        }
        Ok(())
    }

    /// Applies one record to the ledger, all of it or none of it: on success
    /// the ledger becomes `apply(record)`; on failure it is left exactly as it
    /// was and the reason is returned. The ledger's invariant is kept.
    pub fn process_record(&mut self, record: &Record) -> (r: Result<(), DBError>)
        requires
            old(self)@.inv(),
        ensures
            final(self)@.inv(),
            match old(self)@.apply(*record) {
                Ok(m) => r is Ok && final(self)@ == m,
                Err(e) => r == Err::<(), DBError>(e) && final(self)@ == old(self)@,
            },
    {
        proof {
            lemma_apply_keeps_invariant(self@, *record);
        }
        if record.transaction_kind == TransactionKind::Deposit {
            if self.transaction(record.tx).is_some() {
                return Err(DBError::TransactionAlreadyExists);
            }
        }
        match self.update_client_db(record) {
            Ok(()) => {},
            Err(e) => return Err(e),
        }
        self.update_transaction_db(record)
    }
}

/// Every record that the ledger accepts keeps its invariant: each account's
/// total is its available plus its held funds, no account holds a negative
/// amount, and every logged amount is a non-negative `i64`.
pub proof fn lemma_apply_keeps_invariant(m: LedgerModel, r: Record)
    requires
        m.inv(),
    ensures
        m.apply(r) matches Ok(m2) ==> m2.inv(),
{
}

/// No account holds a negative amount, neither available nor held.
pub open spec fn no_negative_balance(m: LedgerModel) -> bool {
    forall|c: u16| #[trigger]
        m.accounts.contains_key(c) ==> m.accounts[c].available >= 0 && m.accounts[c].held >= 0
}

/// A dispute of a deposit whose amount exceeds what its client still has
/// available: the one accepted record that can drive available funds below
/// zero (the funds were withdrawn before the dispute).
pub open spec fn overdrawing_dispute(m: LedgerModel, r: Record) -> bool {
    &&& r.transaction_kind == TransactionKind::Dispute
    &&& m.log.contains_key(r.tx)
    &&& m.accounts.contains_key(r.client)
    &&& m.log[r.tx].amount > m.accounts[r.client].available
}

/// Starting from balances that are all non-negative, every accepted record
/// other than an overdrawing dispute leaves them all non-negative.
pub proof fn lemma_balances_stay_non_negative(m: LedgerModel, r: Record)
    requires
        m.inv(),
        no_negative_balance(m),
        !overdrawing_dispute(m, r),
    ensures
        m.apply(r) matches Ok(m2) ==> no_negative_balance(m2),
{
}

/// A deposit, then a dispute of it, then its resolve: the resolve is
/// accepted and brings the ledger back to exactly the state right after the
/// deposit, so available funds and total are restored and the held funds
/// return to what they were before the dispute.
pub proof fn lemma_dispute_resolve_round_trip(m: LedgerModel, client: u16, tx: u32, amount: i64)
    requires
        m.inv(),
        m.apply(Record { transaction_kind: TransactionKind::Deposit, client, tx, amount }) is Ok,
        m.apply(
            Record { transaction_kind: TransactionKind::Deposit, client, tx, amount },
        )->Ok_0.apply(Record { transaction_kind: TransactionKind::Dispute, client, tx, amount: 0 })
            is Ok,
    ensures
        ({
            let m1 = m.apply(
                Record { transaction_kind: TransactionKind::Deposit, client, tx, amount },
            )->Ok_0;
            let m2 = m1.apply(
                Record { transaction_kind: TransactionKind::Dispute, client, tx, amount: 0 },
            )->Ok_0;
            m2.apply(Record { transaction_kind: TransactionKind::Resolve, client, tx, amount: 0 })
                == Ok::<LedgerModel, DBError>(m1)
        }),
{
    let m1 = m.apply(Record { transaction_kind: TransactionKind::Deposit, client, tx, amount })->Ok_0;
    let m2 = m1.apply(
        Record { transaction_kind: TransactionKind::Dispute, client, tx, amount: 0 },
    )->Ok_0;
    let m3 = m2.apply(
        Record { transaction_kind: TransactionKind::Resolve, client, tx, amount: 0 },
    )->Ok_0;
    lemma_apply_keeps_invariant(m, Record { transaction_kind: TransactionKind::Deposit, client, tx, amount });
    assert(m3.accounts =~= m1.accounts);
    assert(m3.log =~= m1.log);
}

/// The ledger after the records `rs`, in order, where each refused record
/// is skipped and leaves the ledger as it was.
pub open spec fn run(m: LedgerModel, rs: Seq<Record>) -> LedgerModel
    decreases rs.len(),
{
    if rs.len() == 0 {
        m
    } else {
        let prev = run(m, rs.drop_last());
        match prev.apply(rs.last()) {
            Ok(next) => next,
            Err(_) => prev,
        }
    }
}

/// How many of the records `rs` the ledger refuses when they are applied in
/// order from `m`.
pub open spec fn refusals(m: LedgerModel, rs: Seq<Record>) -> nat
    decreases rs.len(),
{
    if rs.len() == 0 {
        0
    } else {
        refusals(m, rs.drop_last()) + if run(m, rs.drop_last()).apply(rs.last()) is Err {
            1nat
        } else {
            0nat
        }
    }
}

/// However many records are applied, and whichever of them are refused, the
/// invariant holds after each of them: in particular every account's total
/// stays its available plus its held funds, and no held amount goes negative.
pub proof fn lemma_run_keeps_invariant(m: LedgerModel, rs: Seq<Record>)
    requires
        m.inv(),
    ensures
        run(m, rs).inv(),
    decreases rs.len(),
{
    if rs.len() > 0 {
        lemma_run_keeps_invariant(m, rs.drop_last());
        lemma_apply_keeps_invariant(run(m, rs.drop_last()), rs.last());
    }
}

impl Engine {
    /// Applies `records` in order, skipping each one the ledger refuses, and
    /// returns how many were refused.
    pub fn process_records(&mut self, records: &Vec<Record>) -> (refused: usize)
        requires
            old(self)@.inv(),
        ensures
            final(self)@.inv(),
            final(self)@ == run(old(self)@, records@),
            refused == refusals(old(self)@, records@),
    {
        let mut refused: usize = 0;
        let mut i: usize = 0;
        while i < records.len()
            invariant
                i <= records@.len(),
                refused == refusals(old(self)@, records@.take(i as int)),
                refused <= i,
                self@.inv(),
                self@ == run(old(self)@, records@.take(i as int)),
            decreases records@.len() - i,
        {
            assert(records@.take(i as int + 1).drop_last() =~= records@.take(i as int));
            if self.process_record(&records[i]).is_err() {
                refused = refused + 1;
            }
            i = i + 1;
        }
        assert(records@.take(i as int) =~= records@);
        refused
    }
}

} // verus!
