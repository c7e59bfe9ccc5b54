use rust_decimal::prelude::FromPrimitive;
use transaction_processing::handler::{execute_record, Outcome};
use transaction_processing::{
    Amount, Engine, State, Transaction, TransactionMetadata, TransactionRecord, TransactionType,
};

/// Converts a double to an `Amount` through rust_decimal, the way a
/// front-end feeds amounts into the library.
fn amount_from_f64(x: f64) -> Option<Amount> {
    let d = rust_decimal::Decimal::from_f64(x)?;
    let mantissa = d.mantissa();
    Amount::from_mantissa_scale(mantissa < 0, mantissa.unsigned_abs(), d.scale())
}

#[test]
fn test_handler() {
    let client_id = 1;
    let mut state = State::new(client_id);

    // Invalid account id: dropped.
    let outcome = execute_record(
        &mut state,
        client_id,
        TransactionRecord {
            transaction_type: TransactionType::Deposit,
            client: client_id + 1,
            id: 1,
            amount: amount_from_f64(1.0),
        },
    );
    assert_eq!(outcome, Outcome::RejectedClient);

    // Invalid deposit transaction: dropped.
    let outcome = execute_record(
        &mut state,
        client_id,
        TransactionRecord {
            transaction_type: TransactionType::Deposit,
            client: client_id,
            id: 2,
            amount: None,
        },
    );
    assert_eq!(
        outcome,
        Outcome::InvalidRecord(transaction_processing::state::Error::Deposit)
    );

    // Valid deposit.
    let outcome = execute_record(
        &mut state,
        client_id,
        TransactionRecord {
            transaction_type: TransactionType::Deposit,
            client: client_id,
            id: 3,
            amount: amount_from_f64(12.34),
        },
    );
    assert_eq!(outcome, Outcome::Applied);

    // Business failure: withdrawal beyond the balance is reported but the
    // worker carries on.
    let outcome = execute_record(
        &mut state,
        client_id,
        TransactionRecord {
            transaction_type: TransactionType::Withdrawal,
            client: client_id,
            id: 4,
            amount: amount_from_f64(100.0),
        },
    );
    assert_eq!(
        outcome,
        Outcome::Failed(transaction_processing::state::Error::Account(
            transaction_processing::account::Error::InsufficientFunds
        ))
    );

    assert_eq!(state.account.available(), amount_from_f64(12.34).unwrap());
    assert_eq!(state.account.total(), amount_from_f64(12.34).unwrap());
    assert_eq!(state.account.held(), Amount::zero());
    assert_eq!(state.account.locked(), false);
    assert_eq!(state.account.id(), client_id);
    assert_eq!(state.transaction_history.len(), 1);
    assert_eq!(
        state.transaction_history.get(&3).unwrap(),
        &Transaction::Deposit(
            TransactionMetadata(3, client_id),
            amount_from_f64(12.34).unwrap(),
            false
        )
    );
}

#[test]
fn test_engine() {
    let mut engine = Engine::new();

    let mut transactions: Vec<TransactionRecord> = Vec::new();
    for i in 1..10001 {
        transactions.push(TransactionRecord {
            transaction_type: TransactionType::Deposit,
            client: i,
            id: i as u32,
            amount: amount_from_f64(1.0),
        })
    }

    engine.run_records(&transactions);
    let result = engine.snapshot();

    assert_eq!(result.len(), 10000);
    assert!(result
        .iter()
        .all(|&acc| acc.available() == amount_from_f64(1.0).unwrap()));
    assert!(result
        .iter()
        .all(|&acc| acc.total() == amount_from_f64(1.0).unwrap()));
    assert!(result.iter().all(|&acc| acc.held() == Amount::zero()));
}

#[test]
fn test_submit_reports_errors() {
    let mut engine = Engine::new();
    // A dispute for an unknown id still creates the account entry and
    // reports the error.
    let err = engine
        .submit(TransactionRecord {
            transaction_type: TransactionType::Dispute,
            client: 9,
            id: 1,
            amount: None,
        })
        .unwrap_err();
    assert_eq!(err, transaction_processing::state::Error::Dispute);
    let snapshot = engine.snapshot();
    assert_eq!(snapshot.len(), 1);
    assert_eq!(snapshot[0].id(), 9);
    assert_eq!(snapshot[0].total(), Amount::zero());
}
