//! Per-account command handling.
//!
//! A worker that owns one account's state consumes the transactions routed
//! to it strictly in order. [`execute_record`] is the decision taken for
//! each incoming record: drop records addressed to another account, drop
//! records that do not convert to a transaction, and otherwise apply the
//! transaction, reporting — but surviving — business failures. The loop
//! that receives commands from a channel and looks the state up in a
//! shared map lives outside the library and calls in here.

use vstd::prelude::*;

use crate::account;
use crate::state::{self, spec_apply, spec_try_from, State, StateView, Transaction};
use crate::transaction::TransactionRecord;

verus! {

/// Fatal error conditions of a per-account worker.
#[derive(Copy, Clone, Debug, PartialEq, Eq, Structural)]
pub enum Error {
    /// No state entry exists for the worker's own account id; the worker
    /// cannot continue.
    InvalidState,
}

/// Result of per-account worker operations.
pub type Result<T> = core::result::Result<T, Error>;

/// What became of one incoming record.
#[derive(Copy, Clone, Debug, PartialEq, Eq, Structural)]
pub enum Outcome {
    /// The record addressed another account and was dropped.
    RejectedClient,
    /// The record did not convert to a transaction and was dropped.
    InvalidRecord(state::Error),
    /// The transaction was applied but the business rules rejected it;
    /// the state is unchanged except as the rules say.
    Failed(state::Error),
    /// The transaction was applied successfully.
    Applied,
}

/// What handling one record does: a record for another client or one that
/// does not convert leaves the state untouched; otherwise the transaction
/// is applied and the outcome reports the result.
pub open spec fn spec_execute(
    account_id: account::Id,
    rec: TransactionRecord,
    s: StateView,
) -> (StateView, Outcome) {
    if rec.client != account_id {
        (s, Outcome::RejectedClient)
    } else {
        match spec_try_from(rec) {
            Err(e) => (s, Outcome::InvalidRecord(e)),
            Ok(tx) => {
                let (s1, r) = spec_apply(tx, s);
                match r {
                    Ok(()) => (s1, Outcome::Applied),
                    Err(e) => (s1, Outcome::Failed(e)),
                }
            },
        }
    }
}

/// Handles one record for the account `state` belongs to: the per-record
/// decision of a worker that serialises all transactions of one account.
pub fn execute_record(
    state: &mut State,
    account_id: account::Id,
    record: TransactionRecord,
) -> (o: Outcome)
    requires
        old(state)@.inv(),
    ensures
        (final(state)@, o) == spec_execute(account_id, record, old(state)@),
        final(state)@.inv(),
{
    if record.client != account_id {
        return Outcome::RejectedClient;
    }
    match Transaction::try_from_record(record) {
        Err(e) => Outcome::InvalidRecord(e),
        Ok(tx) => match tx.apply(state) {
            Ok(()) => Outcome::Applied,
            Err(e) => Outcome::Failed(e),
        },
    }
}

} // verus!
