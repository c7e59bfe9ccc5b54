//! Transaction-processing core: a per-account ledger engine that consumes an
//! ordered stream of financial transaction records (deposits, withdrawals,
//! disputes, resolves, charge-backs) and maintains, for each client, an
//! account state plus the transaction history needed to adjudicate disputes.
//!
//! Every balance-changing operation carries a contract; the central account
//! invariants (`available + held == total`, all balances non-negative, locked
//! accounts are terminal) are proved to hold after every operation.

pub mod account;
pub mod amount;
pub mod engine;
pub mod handler;
pub mod state;
pub mod transaction;

pub use account::Account;
pub use account::Id as AccountId;
pub use amount::Amount;
pub use engine::Engine;
pub use state::{State, Transaction, TransactionMetadata};
pub use transaction::Id as TransactionId;
pub use transaction::{TransactionRecord, TransactionType};
