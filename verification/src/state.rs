//! Per-account state: the account plus the transaction history needed to
//! adjudicate disputes.
//!
//! A [`Transaction`] knows how to apply itself to a [`State`]. The spec
//! functions here pin down exactly which state and which result every
//! application produces, and the lemmas at the bottom prove the laws the
//! state machine obeys: invariants are preserved, locked accounts are
//! terminal, duplicate transaction ids are rejected, and a dispute followed
//! by a resolve restores the balances.

use vstd::prelude::*;

use crate::account::{self, Account, AccountView};
use crate::amount::{Amount, MAX_UNITS};
use crate::transaction::{TransactionRecord, TransactionType};
use std::collections::HashMap;

verus! {

/// Error conditions that may arise when applying transactions.
#[derive(Copy, Clone, Debug, PartialEq, Eq, Structural)]
pub enum Error {
    /// An account mutator failed; wraps the account-level error.
    Account(account::Error),
    /// Invalid deposit transaction (missing amount, or the wrong variant).
    Deposit,
    /// Invalid withdrawal transaction (missing amount, or the wrong
    /// variant).
    Withdrawal,
    /// Invalid dispute: unknown id, not a deposit, already disputed, or the
    /// wrong variant.
    Dispute,
    /// Invalid resolve: unknown id, not a disputed deposit, or the wrong
    /// variant.
    Resolve,
    /// Invalid charge back: unknown id, not a disputed deposit, or the
    /// wrong variant.
    ChargeBack,
    /// A deposit or withdrawal reused an id already in the history.
    DuplicateTransactionId,
    /// The transaction addresses another account.
    InvalidAccountId,
}

/// Result of applying transactions.
pub type Result<T> = core::result::Result<T, Error>;

/// A transaction's metadata: its id and the client account it addresses.
#[derive(Copy, Clone, Debug, PartialEq, Eq, Structural)]
pub struct TransactionMetadata(pub crate::transaction::Id, pub account::Id);

/// Internal representation of a transaction.
///
/// The `bool` on a deposit is its dispute flag: `true` while the deposit is
/// under dispute.
#[derive(Copy, Clone, Debug, PartialEq, Eq, Structural)]
pub enum Transaction {
    /// Deposit transaction.
    Deposit(TransactionMetadata, Amount, bool),
    /// Withdrawal transaction.
    Withdrawal(TransactionMetadata, Amount),
    /// Dispute transaction, referencing an earlier deposit.
    Dispute(TransactionMetadata),
    /// Resolve transaction, referencing a disputed deposit.
    Resolve(TransactionMetadata),
    /// Charge back transaction, referencing a disputed deposit.
    ChargeBack(TransactionMetadata),
}

/// The metadata a transaction carries, whatever its variant.
pub open spec fn meta_of(tx: Transaction) -> TransactionMetadata {
    match tx {
        Transaction::Deposit(md, _, _) => md,
        Transaction::Withdrawal(md, _) => md,
        Transaction::Dispute(md) => md,
        Transaction::Resolve(md) => md,
        Transaction::ChargeBack(md) => md,
    }
}

/// The form in which a transaction enters the history: a deposit is
/// always recorded undisputed, whatever flag it arrived with.
pub open spec fn recorded_of(tx: Transaction) -> Transaction {
    match tx {
        Transaction::Deposit(md, a, _) => Transaction::Deposit(md, a, false),
        _ => tx,
    }
}

/// Mathematical view of a [`State`]: the account view plus the history as
/// a map from transaction id to the stored transaction.
pub struct StateView {
    pub account: AccountView,
    pub history: Map<crate::transaction::Id, Transaction>,
}

/// A history entry under key `k` for account `id` is well-formed: it is a
/// deposit or a withdrawal whose metadata carries exactly `k` and `id` and
/// whose amount is positive and in range.
pub open spec fn entry_ok(k: crate::transaction::Id, id: account::Id, t: Transaction) -> bool {
    match t {
        Transaction::Deposit(md, a, _) => md.0 == k && md.1 == id && 0 < a@ <= MAX_UNITS,
        Transaction::Withdrawal(md, a) => md.0 == k && md.1 == id && 0 < a@ <= MAX_UNITS,
        _ => false,
    }
}

impl StateView {
    /// The state invariants: the account invariants hold and every history
    /// entry is a well-formed deposit or withdrawal of this account.
    pub open spec fn inv(self) -> bool {
        &&& self.account.inv()
        &&& forall|k: crate::transaction::Id| #[trigger]
            self.history.contains_key(k) ==> entry_ok(k, self.account.id, self.history[k])
    }

    /// A fresh state: a new account and an empty history.
    pub open spec fn new_state(id: account::Id) -> StateView {
        StateView { account: AccountView::new_account(id), history: Map::empty() }
    }
}

/// What applying a deposit does: reject an id mismatch or a reused
/// transaction id, then credit the account and record the deposit as
/// undisputed — whatever dispute flag the incoming value carried.
pub open spec fn spec_apply_deposit(tx: Transaction, s: StateView) -> (StateView, Result<()>) {
    match tx {
        Transaction::Deposit(md, amount, _) => {
            if s.account.id != md.1 {
                (s, Err(Error::InvalidAccountId))
            } else if s.history.contains_key(md.0) {
                (s, Err(Error::DuplicateTransactionId))
            } else {
                let (a2, r) = account::spec_deposit(s.account, amount@);
                match r {
                    Ok(()) => (
                        StateView {
                            account: a2,
                            history: s.history.insert(
                                md.0,
                                Transaction::Deposit(md, amount, false),
                            ),
                        },
                        Ok(()),
                    ),
                    Err(e) => (s, Err(Error::Account(e))),
                }
            }
        },
        _ => (s, Err(Error::Deposit)),
    }
}

/// What applying a withdrawal does: reject an id mismatch or a reused
/// transaction id, then debit the account and record the withdrawal.
pub open spec fn spec_apply_withdrawal(tx: Transaction, s: StateView) -> (StateView, Result<()>) {
    match tx {
        Transaction::Withdrawal(md, amount) => {
            if s.account.id != md.1 {
                (s, Err(Error::InvalidAccountId))
            } else if s.history.contains_key(md.0) {
                (s, Err(Error::DuplicateTransactionId))
            } else {
                let (a2, r) = account::spec_withdrawal(s.account, amount@);
                match r {
                    Ok(()) => (
                        StateView { account: a2, history: s.history.insert(md.0, tx) },
                        Ok(()),
                    ),
                    Err(e) => (s, Err(Error::Account(e))),
                }
            }
        },
        _ => (s, Err(Error::Withdrawal)),
    }
}

/// What applying a dispute does: the referenced entry must be an
/// undisputed deposit of this account; its amount moves from `available`
/// to `held` and the entry is marked disputed.
pub open spec fn spec_apply_dispute(tx: Transaction, s: StateView) -> (StateView, Result<()>) {
    match tx {
        Transaction::Dispute(md) => {
            if s.account.id != md.1 {
                (s, Err(Error::InvalidAccountId))
            } else if !s.history.contains_key(md.0) {
                (s, Err(Error::Dispute))
            } else {
                match s.history[md.0] {
                    Transaction::Deposit(md2, amount, is_disputed) => {
                        if is_disputed {
                            (s, Err(Error::Dispute))
                        } else {
                            let (a2, r) = account::spec_dispute(s.account, amount@);
                            match r {
                                Ok(()) => (
                                    StateView {
                                        account: a2,
                                        history: s.history.insert(
                                            md2.0,
                                            Transaction::Deposit(md2, amount, true),
                                        ),
                                    },
                                    Ok(()),
                                ),
                                Err(e) => (s, Err(Error::Account(e))),
                            }
                        }
                    },
                    _ => (s, Err(Error::Dispute)),
                }
            }
        },
        _ => (s, Err(Error::Dispute)),
    }
}

/// What applying a resolve does: the referenced entry must be a disputed
/// deposit of this account; its amount moves from `held` back to
/// `available` and the entry is marked undisputed again.
pub open spec fn spec_apply_resolve(tx: Transaction, s: StateView) -> (StateView, Result<()>) {
    match tx {
        Transaction::Resolve(md) => {
            if s.account.id != md.1 {
                (s, Err(Error::InvalidAccountId))
            } else if !s.history.contains_key(md.0) {
                (s, Err(Error::Resolve))
            } else {
                match s.history[md.0] {
                    Transaction::Deposit(md2, amount, is_disputed) => {
                        if !is_disputed {
                            (s, Err(Error::Resolve))
                        } else {
                            let (a2, r) = account::spec_resolve(s.account, amount@);
                            match r {
                                Ok(()) => (
                                    StateView {
                                        account: a2,
                                        history: s.history.insert(
                                            md2.0,
                                            Transaction::Deposit(md2, amount, false),
                                        ),
                                    },
                                    Ok(()),
                                ),
                                Err(e) => (s, Err(Error::Account(e))),
                            }
                        }
                    },
                    _ => (s, Err(Error::Resolve)),
                }
            }
        },
        _ => (s, Err(Error::Resolve)),
    }
}

/// What applying a charge back does: the referenced entry must be a
/// disputed deposit of this account; its amount leaves `held` and `total`,
/// the dispute is closed, and the account is locked.
pub open spec fn spec_apply_charge_back(tx: Transaction, s: StateView) -> (StateView, Result<()>) {
    match tx {
        Transaction::ChargeBack(md) => {
            if s.account.id != md.1 {
                (s, Err(Error::InvalidAccountId))
            } else if !s.history.contains_key(md.0) {
                (s, Err(Error::ChargeBack))
            } else {
                match s.history[md.0] {
                    Transaction::Deposit(md2, amount, is_disputed) => {
                        if !is_disputed {
                            (s, Err(Error::ChargeBack))
                        } else {
                            let (a2, r) = account::spec_charge_back(s.account, amount@);
                            match r {
                                Ok(()) => (
                                    StateView {
                                        account: a2,
                                        history: s.history.insert(
                                            md2.0,
                                            Transaction::Deposit(md2, amount, false),
                                        ),
                                    },
                                    Ok(()),
                                ),
                                Err(e) => (s, Err(Error::Account(e))),
                            }
                        }
                    },
                    _ => (s, Err(Error::ChargeBack)),
                }
            }
        },
        _ => (s, Err(Error::ChargeBack)),
    }
}

/// What applying any transaction does: dispatch on the variant.
pub open spec fn spec_apply(tx: Transaction, s: StateView) -> (StateView, Result<()>) {
    match tx {
        Transaction::Deposit(..) => spec_apply_deposit(tx, s),
        Transaction::Withdrawal(..) => spec_apply_withdrawal(tx, s),
        Transaction::Dispute(..) => spec_apply_dispute(tx, s),
        Transaction::Resolve(..) => spec_apply_resolve(tx, s),
        Transaction::ChargeBack(..) => spec_apply_charge_back(tx, s),
    }
}

/// What converting a record to a transaction yields: deposits and
/// withdrawals need an amount, the referencing kinds ignore it.
pub open spec fn spec_try_from(rec: TransactionRecord) -> Result<Transaction> {
    match rec.transaction_type {
        TransactionType::Deposit => match rec.amount {
            Some(a) => Ok(
                Transaction::Deposit(TransactionMetadata(rec.id, rec.client), a, false),
            ),
            None => Err(Error::Deposit),
        },
        TransactionType::Withdrawal => match rec.amount {
            Some(a) => Ok(Transaction::Withdrawal(TransactionMetadata(rec.id, rec.client), a)),
            None => Err(Error::Withdrawal),
        },
        TransactionType::Dispute => Ok(
            Transaction::Dispute(TransactionMetadata(rec.id, rec.client)),
        ),
        TransactionType::Resolve => Ok(
            Transaction::Resolve(TransactionMetadata(rec.id, rec.client)),
        ),
        TransactionType::ChargeBack => Ok(
            Transaction::ChargeBack(TransactionMetadata(rec.id, rec.client)),
        ),
    }
}

/// State of one client account: the account plus the history of its
/// deposits and withdrawals keyed by transaction id.
pub struct State {
    /// The account's balances and lock flag.
    pub account: Account,
    /// History of deposits and withdrawals, keyed by transaction id.
    pub transaction_history: HashMap<crate::transaction::Id, Transaction>,
}

impl View for State {
    type V = StateView;

    open spec fn view(&self) -> StateView {
        StateView { account: self.account@, history: self.transaction_history@ }
    }
}

impl State {
    /// Creates a fresh state: a new account and an empty history.
    pub fn new(id: account::Id) -> (r: State)
        ensures
            r@ == StateView::new_state(id),
            r@.inv(),
    {
        let r = State { account: Account::new(id), transaction_history: HashMap::new() };
        proof {
            assert(r@ =~~= StateView::new_state(id));
        }
        r
    }
}

impl Default for State {
    /// The default state belongs to account id `0`.
    fn default() -> (r: State)
        ensures
            r@ == StateView::new_state(0),
            r@.inv(),
    {
        State::new(0)
    }
}

impl Transaction {
    /// Applies this transaction to `state`, dispatching on the variant.
    pub fn apply(&self, state: &mut State) -> (r: Result<()>)
        requires
            old(state)@.inv(),
        ensures
            (final(state)@, r) == spec_apply(*self, old(state)@),
            final(state)@.inv(),
    {
        match self {
            Self::Deposit(..) => self.deposit(state),
            Self::Withdrawal(..) => self.withdrawal(state),
            Self::Dispute(..) => self.dispute(state),
            Self::Resolve(..) => self.resolve(state),
            Self::ChargeBack(..) => self.charge_back(state),
        }
    }

    /// Applies this transaction as a deposit; any other variant is
    /// rejected with [`Error::Deposit`].
    pub fn deposit(&self, state: &mut State) -> (r: Result<()>)
        requires
            old(state)@.inv(),
        ensures
            (final(state)@, r) == spec_apply_deposit(*self, old(state)@),
            final(state)@.inv(),
    {
        match self {
            Self::Deposit(md, amount, _) => {
                if state.account.id() != md.1 {
                    return Err(Error::InvalidAccountId);
                }
                if state.transaction_history.contains_key(&md.0) {
                    return Err(Error::DuplicateTransactionId);
                }
                match state.account.deposit(*amount) {
                    Err(e) => Err(Error::Account(e)),
                    Ok(()) => {
                        state.transaction_history.insert(
                            md.0,
                            Self::Deposit(*md, *amount, false),
                        );
                        Ok(())
                    },
                }
            },
            _ => Err(Error::Deposit),
        }
    }

    /// Applies this transaction as a withdrawal; any other variant is
    /// rejected with [`Error::Withdrawal`].
    pub fn withdrawal(&self, state: &mut State) -> (r: Result<()>)
        requires
            old(state)@.inv(),
        ensures
            (final(state)@, r) == spec_apply_withdrawal(*self, old(state)@),
            final(state)@.inv(),
    {
        match self {
            Self::Withdrawal(md, amount) => {
                if state.account.id() != md.1 {
                    return Err(Error::InvalidAccountId);
                }
                if state.transaction_history.contains_key(&md.0) {
                    return Err(Error::DuplicateTransactionId);
                }
                match state.account.withdrawal(*amount) {
                    Err(e) => Err(Error::Account(e)),
                    Ok(()) => {
                        state.transaction_history.insert(md.0, *self);
                        Ok(())
                    },
                }
            },
            _ => Err(Error::Withdrawal),
        }
    }

    /// Applies this transaction as a dispute; any other variant is
    /// rejected with [`Error::Dispute`].
    pub fn dispute(&self, state: &mut State) -> (r: Result<()>)
        requires
            old(state)@.inv(),
        ensures
            (final(state)@, r) == spec_apply_dispute(*self, old(state)@),
            final(state)@.inv(),
    {
        match self {
            Self::Dispute(md) => {
                if state.account.id() != md.1 {
                    return Err(Error::InvalidAccountId);
                }
                let disputed_transaction = match state.transaction_history.get(&md.0) {
                    Some(t) => *t,
                    None => {
                        return Err(Error::Dispute);
                    },
                };
                match disputed_transaction {
                    Self::Deposit(md2, amount, is_disputed) => {
                        if is_disputed {
                            return Err(Error::Dispute);
                        }
                        match state.account.dispute(amount) {
                            Err(e) => Err(Error::Account(e)),
                            Ok(()) => {
                                state.transaction_history.insert(
                                    md2.0,
                                    Self::Deposit(md2, amount, true),
                                );
                                Ok(())
                            },
                        }
                    },
                    _ => Err(Error::Dispute),
                }
            },
            _ => Err(Error::Dispute),
        }
    }

    /// Applies this transaction as a resolve; any other variant is
    /// rejected with [`Error::Resolve`].
    pub fn resolve(&self, state: &mut State) -> (r: Result<()>)
        requires
            old(state)@.inv(),
        ensures
            (final(state)@, r) == spec_apply_resolve(*self, old(state)@),
            final(state)@.inv(),
    {
        match self {
            Self::Resolve(md) => {
                if state.account.id() != md.1 {
                    return Err(Error::InvalidAccountId);
                }
                let disputed_transaction = match state.transaction_history.get(&md.0) {
                    Some(t) => *t,
                    None => {
                        return Err(Error::Resolve);
                    },
                };
                match disputed_transaction {
                    Self::Deposit(md2, amount, is_disputed) => {
                        if !is_disputed {
                            return Err(Error::Resolve);
                        }
                        match state.account.resolve(amount) {
                            Err(e) => Err(Error::Account(e)),
                            Ok(()) => {
                                state.transaction_history.insert(
                                    md2.0,
                                    Self::Deposit(md2, amount, false),
                                );
                                Ok(())
                            },
                        }
                    },
                    _ => Err(Error::Resolve),
                }
            },
            _ => Err(Error::Resolve),
        }
    }

    /// Applies this transaction as a charge back; any other variant is
    /// rejected with [`Error::ChargeBack`].
    pub fn charge_back(&self, state: &mut State) -> (r: Result<()>)
        requires
            old(state)@.inv(),
        ensures
            (final(state)@, r) == spec_apply_charge_back(*self, old(state)@),
            final(state)@.inv(),
    {
        match self {
            Self::ChargeBack(md) => {
                if state.account.id() != md.1 {
                    return Err(Error::InvalidAccountId);
                }
                let disputed_transaction = match state.transaction_history.get(&md.0) {
                    Some(t) => *t,
                    None => {
                        return Err(Error::ChargeBack);
                    },
                };
                match disputed_transaction {
                    Self::Deposit(md2, amount, is_disputed) => {
                        if !is_disputed {
                            return Err(Error::ChargeBack);
                        }
                        match state.account.charge_back(amount) {
                            Err(e) => Err(Error::Account(e)),
                            Ok(()) => {
                                state.transaction_history.insert(
                                    md2.0,
                                    Self::Deposit(md2, amount, false),
                                );
                                Ok(())
                            },
                        }
                    },
                    _ => Err(Error::ChargeBack),
                }
            },
            _ => Err(Error::ChargeBack),
        }
    }

    /// Converts an incoming record into a transaction. Deposits and
    /// withdrawals must carry an amount; the referencing kinds ignore it.
    pub fn try_from_record(rec: TransactionRecord) -> (r: Result<Transaction>)
        ensures
            r == spec_try_from(rec),
    {
        match rec.transaction_type {
            TransactionType::Deposit => match rec.amount {
                Some(a) => Ok(
                    Transaction::Deposit(TransactionMetadata(rec.id, rec.client), a, false),
                ),
                None => Err(Error::Deposit),
            },
            TransactionType::Withdrawal => match rec.amount {
                Some(a) => Ok(
                    Transaction::Withdrawal(TransactionMetadata(rec.id, rec.client), a),
                ),
                None => Err(Error::Withdrawal),
            },
            TransactionType::Dispute => Ok(
                Transaction::Dispute(TransactionMetadata(rec.id, rec.client)),
            ),
            TransactionType::Resolve => Ok(
                Transaction::Resolve(TransactionMetadata(rec.id, rec.client)),
            ),
            TransactionType::ChargeBack => Ok(
                Transaction::ChargeBack(TransactionMetadata(rec.id, rec.client)),
            ),
        }
    }
}

/// Applying any transaction preserves the state invariants: after every
/// step, `available + held == total`, no balance is negative, the total is
/// in range, and every history entry is a well-formed deposit or
/// withdrawal of this account.
pub proof fn lemma_apply_preserves_inv(tx: Transaction, s: StateView)
    requires
        s.inv(),
    ensures
        spec_apply(tx, s).0.inv(),
        spec_apply(tx, s).0.account.id == s.account.id,
{
}

/// A locked account is terminal: every transaction applied to a locked
/// account fails and leaves the state (balances, lock flag and history)
/// exactly as it was.
pub proof fn lemma_locked_is_terminal(tx: Transaction, s: StateView)
    requires
        s.inv(),
        s.account.locked,
    ensures
        spec_apply(tx, s).0 == s,
        spec_apply(tx, s).1 is Err,
{
}

/// The lock flag never goes back: once a state is locked, it stays locked
/// through every transaction.
pub proof fn lemma_locked_stays_locked(tx: Transaction, s: StateView)
    requires
        s.inv(),
        s.account.locked,
    ensures
        spec_apply(tx, s).0.account.locked,
{
}

/// History keys are never removed: every transaction id recorded before a
/// step is still recorded after it.
pub proof fn lemma_history_keys_grow(tx: Transaction, s: StateView)
    ensures
        forall|k: crate::transaction::Id| #[trigger]
            s.history.contains_key(k) ==> spec_apply(tx, s).0.history.contains_key(k),
{
}

/// A transaction id is recorded at most once: a deposit or withdrawal
/// succeeds only if its id is not yet in the history, and on success the
/// id is recorded; a deposit or withdrawal whose id is already recorded
/// fails with `DuplicateTransactionId`.
pub proof fn lemma_ids_unique(tx: Transaction, s: StateView)
    requires
        tx matches Transaction::Deposit(..) || tx matches Transaction::Withdrawal(..),
    ensures
        spec_apply(tx, s).1 is Ok ==> !s.history.contains_key(meta_of(tx).0)
            && spec_apply(tx, s).0.history == s.history.insert(meta_of(tx).0, recorded_of(tx)),
        (s.account.id == meta_of(tx).1 && s.history.contains_key(meta_of(tx).0)) ==> spec_apply(
            tx,
            s,
        ) == (s, Err::<(), Error>(Error::DuplicateTransactionId)),
{
}

/// Dispute/resolve round trip: for a deposit recorded in an unlocked
/// account's history and not currently under dispute, applying a dispute
/// and then a resolve for its id leaves the balances, the lock flag and
/// the whole history exactly as they were; in particular the deposit's
/// dispute flag is false again.
pub proof fn lemma_dispute_resolve_roundtrip(s: StateView, t: crate::transaction::Id)
    requires
        s.inv(),
        !s.account.locked,
        s.history.contains_key(t),
        s.history[t] matches Transaction::Deposit(_, _, disputed) && !disputed,
    ensures
        ({
            let md = TransactionMetadata(t, s.account.id);
            let (s1, r1) = spec_apply(Transaction::Dispute(md), s);
            let (s2, r2) = spec_apply(Transaction::Resolve(md), s1);
            &&& s2.account == s.account
            &&& s2.history == s.history
            &&& r1 is Ok ==> r2 is Ok
        }),
{
    let md = TransactionMetadata(t, s.account.id);
    let (s1, r1) = spec_apply(Transaction::Dispute(md), s);
    let (s2, r2) = spec_apply(Transaction::Resolve(md), s1);
    if r1 is Ok {
        assert(s2.account == s.account);
        assert(s2.history =~= s.history);
    } else {
        assert(s1 == s);
        assert(s2 == s);
    }
}

} // verus!
