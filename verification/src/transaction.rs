//! Transaction records as they arrive from the outside world.
//!
//! A [`TransactionRecord`] is the plain-value payload handed to the engine:
//! a transaction kind, a client id, a transaction id, and an optional
//! amount. The amount is already an exact [`Amount`]; whatever textual or
//! floating-point form a front-end reads is converted before the record
//! reaches this library, and a record whose amount could not be represented
//! exactly carries `None`.

use vstd::prelude::*;

use crate::amount::Amount;

verus! {

/// Transaction identifier, globally unique across deposits and withdrawals.
pub type Id = u32;

/// Supported kinds of transactions.
#[derive(Copy, Clone, Debug, PartialEq, Eq, Structural)]
pub enum TransactionType {
    /// Credit funds to an account.
    Deposit,
    /// Debit funds from an account.
    Withdrawal,
    /// Contest an earlier deposit, freezing its amount.
    Dispute,
    /// Cancel a dispute, releasing the frozen amount.
    Resolve,
    /// Finalise a dispute, removing the frozen amount and locking the
    /// account.
    ChargeBack,
}

/// Transaction data structure used as the engine's input payload.
#[derive(Copy, Clone, Debug, PartialEq, Eq, Structural)]
pub struct TransactionRecord {
    /// Which kind of transaction this record describes.
    pub transaction_type: TransactionType,
    /// The client account the record addresses.
    pub client: crate::account::Id,
    /// The record's transaction id.
    pub id: Id,
    /// The amount, required for deposits and withdrawals and ignored
    /// otherwise. `None` also stands for an amount that could not be
    /// represented exactly.
    pub amount: Option<Amount>,
}

} // verus!
