//! A client's balance and its mutation primitives.
use crate::error::DBError;
use vstd::prelude::*;

verus! {

/// Whether `x` can be stored in an `i64`.
pub open spec fn fits_i64(x: int) -> bool {
    i64::MIN <= x <= i64::MAX
}

/// The mathematical content of a client's account.
pub struct AccountModel {
    pub available: int,
    pub held: int,
    pub total: int,
    pub locked: bool,
}

impl AccountModel {
    /// The state of an account that was just opened.
    pub open spec fn zero() -> AccountModel {
        AccountModel { available: 0, held: 0, total: 0, locked: false }
    }

    /// The total is the sum of the available and held funds, and every
    /// balance fits the machine representation.
    pub open spec fn wf(self) -> bool {
        &&& self.total == self.available + self.held
        &&& fits_i64(self.available)
        &&& fits_i64(self.held)
        &&& fits_i64(self.total)
    }

    /// Adds `x` to the available funds and to the total.
    pub open spec fn credit(self, x: int) -> Result<AccountModel, DBError> {
        if x < 0 {
            Err(DBError::NegativeAmountEncountered)
        } else if !fits_i64(self.available + x) || !fits_i64(self.total + x) {
            Err(DBError::AmountOverflow)
        } else {
            Ok(AccountModel { available: self.available + x, total: self.total + x, ..self })
        }
    }

    /// Removes `x` from the available funds and from the total; whether the
    /// funds suffice is left to the caller.
    pub open spec fn debit(self, x: int) -> Result<AccountModel, DBError> {
        if x < 0 {
            Err(DBError::NegativeAmountEncountered)
        } else if !fits_i64(self.available - x) || !fits_i64(self.total - x) {
            Err(DBError::AmountOverflow)
        } else {
            Ok(AccountModel { available: self.available - x, total: self.total - x, ..self })
        }
    }

    /// Moves `x` from the available funds to the held funds.
    pub open spec fn hold(self, x: int) -> Result<AccountModel, DBError> {
        if !fits_i64(self.available - x) || !fits_i64(self.held + x) {
            Err(DBError::AmountOverflow)
        } else {
            Ok(AccountModel { available: self.available - x, held: self.held + x, ..self })
        }
    }

    /// Moves `x` from the held funds back to the available funds.
    pub open spec fn release(self, x: int) -> Result<AccountModel, DBError> {
        if self.held < x {
            Err(DBError::NotEnoughHeldValue)
        } else if !fits_i64(self.available + x) || !fits_i64(self.held - x) {
            Err(DBError::AmountOverflow)
        } else {
            Ok(AccountModel { available: self.available + x, held: self.held - x, ..self })
        }
    }

    /// Freezes the account for good.
    pub open spec fn lock(self) -> AccountModel {
        AccountModel { locked: true, ..self }
    }
}

/// The balance of one client.
#[derive(Debug, Clone, Copy)]
pub struct ClientAccountState {
    available: i64,
    held: i64,
    total: i64,
    locked: bool,
}

impl View for ClientAccountState {
    type V = AccountModel;

    closed spec fn view(&self) -> AccountModel {
        AccountModel {
            available: self.available as int,
            held: self.held as int,
            total: self.total as int,
            locked: self.locked,
        }
    }
}

impl ClientAccountState {
    /// An empty, unlocked account.
    pub fn new() -> (r: Self)
        ensures
            r@ == AccountModel::zero(),
            r@.wf(),
    {
        ClientAccountState { available: 0, held: 0, total: 0, locked: false }
    }

    pub fn available(&self) -> (r: i64)
        ensures
            r == self@.available,
    {
        self.available
    }

    pub fn held(&self) -> (r: i64)
        ensures
            r == self@.held,
    {
        self.held
    }

    pub fn total(&self) -> (r: i64)
        ensures
            r == self@.total,
    {
        self.total
    }

    pub fn locked(&self) -> (r: bool)
        ensures
            r == self@.locked,
    {
        self.locked
    }

    /// Adds `x` to the account; fails on a negative `x` or on overflow and
    /// then leaves the account as it was.
    pub fn add(&mut self, x: i64) -> (r: Result<(), DBError>)
        requires
            old(self)@.wf(),
        ensures
            final(self)@.wf(),
            match old(self)@.credit(x as int) {
                Ok(a) => r is Ok && final(self)@ == a,
                Err(e) => r == Err::<(), DBError>(e) && final(self)@ == old(self)@,
            },
    {
        if x < 0 {
            return Err(DBError::NegativeAmountEncountered);
        }
        match (self.available.checked_add(x), self.total.checked_add(x)) {
            (Some(available), Some(total)) => {
                self.available = available;
                self.total = total;
                Ok(())
            },
            _ => Err(DBError::AmountOverflow),
        }
    }

    /// Removes `x` from the account. Whether enough funds are available is
    /// the caller's rule; this fails only on a negative `x` or on overflow,
    /// and then leaves the account as it was.
    pub fn sub(&mut self, x: i64) -> (r: Result<(), DBError>)
        requires
            old(self)@.wf(),
        ensures
            final(self)@.wf(),
            match old(self)@.debit(x as int) {
                Ok(a) => r is Ok && final(self)@ == a,
                Err(e) => r == Err::<(), DBError>(e) && final(self)@ == old(self)@,
            },
    {
        if x < 0 {
            return Err(DBError::NegativeAmountEncountered);
        }
        match (self.available.checked_sub(x), self.total.checked_sub(x)) {
            (Some(available), Some(total)) => {
                self.available = available;
                self.total = total;
                Ok(())
            },
            _ => Err(DBError::AmountOverflow),
        }
    }

    /// Freezes the account; doing it twice changes nothing.
    pub fn lock(&mut self)
        ensures
            final(self)@ == old(self)@.lock(),
    {
        self.locked = true;
    }

    /// Lifts the freeze on the account.
    pub fn unlock(&mut self)
        ensures
            final(self)@ == (AccountModel { locked: false, ..old(self)@ }),
    {
        self.locked = false;
    }

    /// Moves `x` from the available funds to the held funds; the total does
    /// not change. Fails only on overflow, leaving the account as it was.
    pub fn hold(&mut self, x: i64) -> (r: Result<(), DBError>)
        requires
            old(self)@.wf(),
        ensures
            final(self)@.wf(),
            match old(self)@.hold(x as int) {
                Ok(a) => r is Ok && final(self)@ == a,
                Err(e) => r == Err::<(), DBError>(e) && final(self)@ == old(self)@,
            },
    {
        match (self.available.checked_sub(x), self.held.checked_add(x)) {
            (Some(available), Some(held)) => {
                self.available = available;
                self.held = held;
                Ok(())
            },
            _ => Err(DBError::AmountOverflow),
        }
    }

    /// Moves `x` from the held funds back to the available funds; fails when
    /// fewer than `x` are held, or on overflow, leaving the account as it was.
    pub fn unhold(&mut self, x: i64) -> (r: Result<(), DBError>)
        requires
            old(self)@.wf(),
        ensures
            final(self)@.wf(),
            match old(self)@.release(x as int) {
                Ok(a) => r is Ok && final(self)@ == a,
                Err(e) => r == Err::<(), DBError>(e) && final(self)@ == old(self)@,
            },
    {
        if self.held < x {
            return Err(DBError::NotEnoughHeldValue);
        }
        match (self.available.checked_add(x), self.held.checked_sub(x)) {
            (Some(available), Some(held)) => {
                self.available = available;
                self.held = held;
                Ok(())
            },
            _ => Err(DBError::AmountOverflow),
        }
    }
}

/// Splits an amount in ten-thousandths into its sign, its whole currency
/// units and its four fractional digits, for rendering with fixed precision.
pub fn amount_parts(v: i64) -> (r: (bool, u64, u64))
    ensures
        r.0 == (v < 0),
        r.2 < 10000,
        r.1 * 10000 + r.2 == if v < 0 {
            -v
        } else {
            v as int
        },
{
    let magnitude: u64 = if v < 0 {
        (0i128 - v as i128) as u64
    } else {
        v as u64
    };
    let whole = magnitude / 10000;
    let frac = magnitude % 10000;
    assert(whole * 10000 + frac == magnitude) by (nonlinear_arith)
        requires
            whole == magnitude / 10000,
            frac == magnitude % 10000,
    ;
    (v < 0, whole, frac)
}

} // verus!
