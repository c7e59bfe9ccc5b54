//! Per-client account balances with validated mutators.
//!
//! An [`Account`] tracks `available`, `held` and `total` funds plus a
//! terminal `locked` flag. Every mutator either succeeds and preserves the
//! central invariants (`available + held == total`, all balances
//! non-negative and within range) or fails with an [`Error`] and leaves the
//! account untouched.

use vstd::prelude::*;

use crate::amount::{Amount, MAX_UNITS};

verus! {

/// Client account identifier.
pub type Id = u16;

/// Error conditions that may arise from account operations.
#[derive(Copy, Clone, Debug, PartialEq, Eq, Structural)]
pub enum Error {
    /// Checked arithmetic on a balance failed.
    Overflow,
    /// The account is locked; no mutator may succeed.
    Locked,
    /// The operation would make a non-negative balance negative.
    InsufficientFunds,
    /// The operation was given a non-positive amount.
    InvalidInput,
}

/// Result of account operations.
pub type Result<T> = core::result::Result<T, Error>;

/// Mathematical view of an [`Account`]: balances as integer counts of
/// billionths.
pub struct AccountView {
    pub id: Id,
    pub available: int,
    pub held: int,
    pub total: int,
    pub locked: bool,
}

impl AccountView {
    /// The account invariants: funds add up (`available + held == total`),
    /// no balance is negative, and the total stays in the representable
    /// range. These hold after every successful mutation.
    pub open spec fn inv(self) -> bool {
        &&& 0 <= self.available
        &&& 0 <= self.held
        &&& self.available + self.held == self.total
        &&& self.total <= MAX_UNITS
    }

    /// A fresh account: zero balances, unlocked.
    pub open spec fn new_account(id: Id) -> AccountView {
        AccountView { id, available: 0, held: 0, total: 0, locked: false }
    }
}

/// What `deposit` does: on success both `available` and `total` grow by
/// `amt`; otherwise the account is unchanged and the error says why.
pub open spec fn spec_deposit(a: AccountView, amt: int) -> (AccountView, Result<()>) {
    if amt <= 0 {
        (a, Err(Error::InvalidInput))
    } else if a.locked {
        (a, Err(Error::Locked))
    } else if a.total + amt > MAX_UNITS {
        (a, Err(Error::Overflow))
    } else {
        (AccountView { available: a.available + amt, total: a.total + amt, ..a }, Ok(()))
    }
}

/// What `withdrawal` does: on success both `available` and `total` shrink
/// by `amt`; a withdrawal never succeeds beyond the available funds.
pub open spec fn spec_withdrawal(a: AccountView, amt: int) -> (AccountView, Result<()>) {
    if amt <= 0 {
        (a, Err(Error::InvalidInput))
    } else if a.locked {
        (a, Err(Error::Locked))
    } else if a.available < amt {
        (a, Err(Error::InsufficientFunds))
    } else {
        (AccountView { available: a.available - amt, total: a.total - amt, ..a }, Ok(()))
    }
}

/// What `dispute` does: on success `amt` moves from `available` to `held`;
/// `total` is unchanged.
pub open spec fn spec_dispute(a: AccountView, amt: int) -> (AccountView, Result<()>) {
    if amt <= 0 {
        (a, Err(Error::InvalidInput))
    } else if a.locked {
        (a, Err(Error::Locked))
    } else if a.available < amt {
        (a, Err(Error::InsufficientFunds))
    } else {
        (AccountView { available: a.available - amt, held: a.held + amt, ..a }, Ok(()))
    }
}

/// What `resolve` does: the inverse of a dispute; on success `amt` moves
/// from `held` back to `available`; `total` is unchanged.
pub open spec fn spec_resolve(a: AccountView, amt: int) -> (AccountView, Result<()>) {
    if amt <= 0 {
        (a, Err(Error::InvalidInput))
    } else if a.locked {
        (a, Err(Error::Locked))
    } else if a.held < amt {
        (a, Err(Error::InsufficientFunds))
    } else {
        (AccountView { available: a.available + amt, held: a.held - amt, ..a }, Ok(()))
    }
}

/// What `charge_back` does: on success `amt` leaves both `held` and
/// `total`, and the account becomes locked for good.
pub open spec fn spec_charge_back(a: AccountView, amt: int) -> (AccountView, Result<()>) {
    if amt <= 0 {
        (a, Err(Error::InvalidInput))
    } else if a.locked {
        (a, Err(Error::Locked))
    } else if a.held < amt {
        (a, Err(Error::InsufficientFunds))
    } else {
        (AccountView { held: a.held - amt, total: a.total - amt, locked: true, ..a }, Ok(()))
    }
}

/// A client account: balances plus the terminal lock flag.
#[derive(Copy, Clone, Debug, PartialEq, Eq, Structural)]
pub struct Account {
    id: Id,
    available: Amount,
    held: Amount,
    total: Amount,
    locked: bool,
}

impl View for Account {
    type V = AccountView;

    closed spec fn view(&self) -> AccountView {
        AccountView {
            id: self.id,
            available: self.available@,
            held: self.held@,
            total: self.total@,
            locked: self.locked,
        }
    }
}

impl Account {
    /// Creates a fresh, unlocked account with zero balances.
    pub fn new(id: Id) -> (r: Account)
        ensures
            r@ == AccountView::new_account(id),
            r@.inv(),
    {
        Account {
            id,
            available: Amount::zero(),
            held: Amount::zero(),
            total: Amount::zero(),
            locked: false,
        }
    }

    /// Funds a client may withdraw.
    pub fn available(&self) -> (r: Amount)
        ensures
            r@ == self@.available,
    {
        self.available
    }

    /// Funds frozen pending dispute resolution.
    pub fn held(&self) -> (r: Amount)
        ensures
            r@ == self@.held,
    {
        self.held
    }

    /// Total funds: `available + held`.
    pub fn total(&self) -> (r: Amount)
        ensures
            r@ == self@.total,
    {
        self.total
    }

    /// Whether the account is locked.
    pub fn locked(&self) -> (r: bool)
        ensures
            r == self@.locked,
    {
        self.locked
    }

    /// The client id this account belongs to.
    pub fn id(&self) -> (r: Id)
        ensures
            r == self@.id,
    {
        self.id
    }

    /// Sets the lock flag directly, leaving every balance unchanged.
    pub fn set_locked(&mut self, locked: bool)
        ensures
            final(self)@ == (AccountView { locked, ..old(self)@ }),
    {
        self.locked = locked;
    }

    /// Credits `amount` to the account, growing `available` and `total`.
    pub fn deposit(&mut self, amount: Amount) -> (r: Result<()>)
        requires
            old(self)@.inv(),
        ensures
            (final(self)@, r) == spec_deposit(old(self)@, amount@),
            final(self)@.inv(),
    {
        proof {
            use_type_invariant(amount);
        }
        if !amount.is_positive() {
            return Err(Error::InvalidInput);
        }
        if self.locked() {
            return Err(Error::Locked);
        }
        let available = match self.available.checked_add(amount) {
            Some(v) => v,
            None => {
                return Err(Error::Overflow);
            },
        };
        let total = match self.total.checked_add(amount) {
            Some(v) => v,
            None => {
                return Err(Error::Overflow);
            },
        };
        self.available = available;
        self.total = total;
        Ok(())
    }

    /// Debits `amount` from the account, shrinking `available` and `total`.
    pub fn withdrawal(&mut self, amount: Amount) -> (r: Result<()>)
        requires
            old(self)@.inv(),
        ensures
            (final(self)@, r) == spec_withdrawal(old(self)@, amount@),
            final(self)@.inv(),
    {
        proof {
            use_type_invariant(amount);
        }
        if !amount.is_positive() {
            return Err(Error::InvalidInput);
        }
        if self.locked() {
            return Err(Error::Locked);
        }
        let available = match self.available.checked_sub(amount) {
            Some(v) => v,
            None => {
                return Err(Error::Overflow);
            },
        };
        if available.is_negative() {
            return Err(Error::InsufficientFunds);
        }
        let total = match self.total.checked_sub(amount) {
            Some(v) => v,
            None => {
                return Err(Error::Overflow);
            },
        };
        if total.is_negative() {
            return Err(Error::InsufficientFunds);
        }
        self.available = available;
        self.total = total;
        Ok(())
    }

    /// Freezes `amount`: moves it from `available` to `held`.
    pub fn dispute(&mut self, amount: Amount) -> (r: Result<()>)
        requires
            old(self)@.inv(),
        ensures
            (final(self)@, r) == spec_dispute(old(self)@, amount@),
            final(self)@.inv(),
    {
        proof {
            use_type_invariant(amount);
        }
        if !amount.is_positive() {
            return Err(Error::InvalidInput);
        }
        if self.locked() {
            return Err(Error::Locked);
        }
        let available = match self.available.checked_sub(amount) {
            Some(v) => v,
            None => {
                return Err(Error::Overflow);
            },
        };
        if available.is_negative() {
            return Err(Error::InsufficientFunds);
        }
        let held = match self.held.checked_add(amount) {
            Some(v) => v,
            None => {
                return Err(Error::Overflow);
            },
        };
        self.held = held;
        self.available = available;
        Ok(())
    }

    /// Releases a disputed `amount`: moves it from `held` back to
    /// `available`.
    pub fn resolve(&mut self, amount: Amount) -> (r: Result<()>)
        requires
            old(self)@.inv(),
        ensures
            (final(self)@, r) == spec_resolve(old(self)@, amount@),
            final(self)@.inv(),
    {
        proof {
            use_type_invariant(amount);
        }
        if !amount.is_positive() {
            return Err(Error::InvalidInput);
        }
        if self.locked() {
            return Err(Error::Locked);
        }
        let held = match self.held.checked_sub(amount) {
            Some(v) => v,
            None => {
                return Err(Error::Overflow);
            },
        };
        if held.is_negative() {
            return Err(Error::InsufficientFunds);
        }
        let available = match self.available.checked_add(amount) {
            Some(v) => v,
            None => {
                return Err(Error::Overflow);
            },
        };
        self.available = available;
        self.held = held;
        Ok(())
    }

    /// Finalises a dispute against the account: debits `held` and `total`
    /// and locks the account for good.
    pub fn charge_back(&mut self, amount: Amount) -> (r: Result<()>)
        requires
            old(self)@.inv(),
        ensures
            (final(self)@, r) == spec_charge_back(old(self)@, amount@),
            final(self)@.inv(),
    {
        proof {
            use_type_invariant(amount);
        }
        if !amount.is_positive() {
            return Err(Error::InvalidInput);
        }
        if self.locked() {
            return Err(Error::Locked);
        }
        let held = match self.held.checked_sub(amount) {
            Some(v) => v,
            None => {
                return Err(Error::Overflow);
            },
        };
        if held.is_negative() {
            return Err(Error::InsufficientFunds);
        }
        let total = match self.total.checked_sub(amount) {
            Some(v) => v,
            None => {
                return Err(Error::Overflow);
            },
        };
        if total.is_negative() {
            return Err(Error::InsufficientFunds);
        }
        self.held = held;
        self.total = total;
        self.set_locked(true);
        Ok(())
    }
}

impl Default for Account {
    /// The default account has id `0`, zero balances, and is unlocked.
    fn default() -> (r: Account)
        ensures
            r@ == AccountView::new_account(0),
            r@.inv(),
    {
        Account::new(0)
    }
}

} // verus!
