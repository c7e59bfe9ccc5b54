use rust_decimal::prelude::FromPrimitive;
use transaction_processing::{Amount, Engine, TransactionRecord, TransactionType};

/// Converts a double to an `Amount` through rust_decimal, the way a
/// front-end feeds amounts into the library.
fn amount_from_f64(x: f64) -> Option<Amount> {
    let d = rust_decimal::Decimal::from_f64(x)?;
    let mantissa = d.mantissa();
    Amount::from_mantissa_scale(mantissa < 0, mantissa.unsigned_abs(), d.scale())
}

fn record(
    transaction_type: TransactionType,
    client: u16,
    id: u32,
    amount: Option<f64>,
) -> TransactionRecord {
    TransactionRecord {
        transaction_type,
        client,
        id,
        amount: amount.and_then(amount_from_f64),
    }
}

#[test]
fn single_deposit() {
    let mut engine = Engine::new();
    engine
        .submit(record(TransactionType::Deposit, 1, 1, Some(1.0)))
        .unwrap();
    let snapshot = engine.snapshot();
    assert_eq!(snapshot.len(), 1);
    assert_eq!(snapshot[0].id(), 1);
    assert_eq!(snapshot[0].available(), amount_from_f64(1.0).unwrap());
    assert_eq!(snapshot[0].held(), Amount::zero());
    assert_eq!(snapshot[0].total(), amount_from_f64(1.0).unwrap());
    assert!(!snapshot[0].locked());
}

#[test]
fn withdrawal_exceeding_balance() {
    let mut engine = Engine::new();
    engine
        .submit(record(TransactionType::Deposit, 1, 1, Some(1.0)))
        .unwrap();
    assert!(engine
        .submit(record(TransactionType::Withdrawal, 1, 2, Some(2.0)))
        .is_err());
    let snapshot = engine.snapshot();
    assert_eq!(snapshot.len(), 1);
    assert_eq!(snapshot[0].available(), amount_from_f64(1.0).unwrap());
    assert_eq!(snapshot[0].total(), amount_from_f64(1.0).unwrap());
}

#[test]
fn dispute_then_resolve() {
    let mut engine = Engine::new();
    engine
        .submit(record(TransactionType::Deposit, 1, 1, Some(5.0)))
        .unwrap();
    engine
        .submit(record(TransactionType::Dispute, 1, 1, None))
        .unwrap();
    engine
        .submit(record(TransactionType::Resolve, 1, 1, None))
        .unwrap();
    let snapshot = engine.snapshot();
    assert_eq!(snapshot.len(), 1);
    assert_eq!(snapshot[0].available(), amount_from_f64(5.0).unwrap());
    assert_eq!(snapshot[0].held(), Amount::zero());
    assert_eq!(snapshot[0].total(), amount_from_f64(5.0).unwrap());
    assert!(!snapshot[0].locked());
}

#[test]
fn dispute_then_chargeback() {
    let mut engine = Engine::new();
    engine
        .submit(record(TransactionType::Deposit, 1, 1, Some(3.0)))
        .unwrap();
    engine
        .submit(record(TransactionType::Dispute, 1, 1, None))
        .unwrap();
    engine
        .submit(record(TransactionType::ChargeBack, 1, 1, None))
        .unwrap();
    let snapshot = engine.snapshot();
    assert_eq!(snapshot.len(), 1);
    assert_eq!(snapshot[0].available(), Amount::zero());
    assert_eq!(snapshot[0].held(), Amount::zero());
    assert_eq!(snapshot[0].total(), Amount::zero());
    assert!(snapshot[0].locked());
}

#[test]
fn post_lock_rejection() {
    let mut engine = Engine::new();
    engine
        .submit(record(TransactionType::Deposit, 1, 1, Some(3.0)))
        .unwrap();
    engine
        .submit(record(TransactionType::Dispute, 1, 1, None))
        .unwrap();
    engine
        .submit(record(TransactionType::ChargeBack, 1, 1, None))
        .unwrap();
    assert!(engine
        .submit(record(TransactionType::Deposit, 1, 2, Some(1.0)))
        .is_err());
    let snapshot = engine.snapshot();
    assert_eq!(snapshot.len(), 1);
    assert_eq!(snapshot[0].available(), Amount::zero());
    assert_eq!(snapshot[0].held(), Amount::zero());
    assert_eq!(snapshot[0].total(), Amount::zero());
    assert!(snapshot[0].locked());
}

#[test]
fn balances_always_add_up() {
    // After a mixed sequence with failures in between, every account
    // satisfies `available + held == total` with nothing negative.
    let mut engine = Engine::new();
    let records = vec![
        record(TransactionType::Deposit, 1, 1, Some(10.0)),
        record(TransactionType::Deposit, 2, 2, Some(4.5)),
        record(TransactionType::Withdrawal, 1, 3, Some(2.5)),
        record(TransactionType::Dispute, 1, 1, None),
        record(TransactionType::Withdrawal, 2, 4, Some(9.0)),
        record(TransactionType::Dispute, 2, 2, None),
        record(TransactionType::ChargeBack, 2, 2, None),
        record(TransactionType::Deposit, 2, 5, Some(1.0)),
        record(TransactionType::Resolve, 1, 1, None),
    ];
    engine.run_records(&records);
    for account in engine.snapshot() {
        let sum = account.available().checked_add(account.held()).unwrap();
        assert_eq!(sum, account.total());
        assert!(!account.available().is_negative());
        assert!(!account.held().is_negative());
        assert!(!account.total().is_negative());
    }
}

#[test]
fn duplicate_transaction_id_rejected() {
    let mut engine = Engine::new();
    engine
        .submit(record(TransactionType::Deposit, 1, 1, Some(1.0)))
        .unwrap();
    let err = engine
        .submit(record(TransactionType::Deposit, 1, 1, Some(1.0)))
        .unwrap_err();
    assert_eq!(
        err,
        transaction_processing::state::Error::DuplicateTransactionId
    );
    let err = engine
        .submit(record(TransactionType::Withdrawal, 1, 1, Some(1.0)))
        .unwrap_err();
    assert_eq!(
        err,
        transaction_processing::state::Error::DuplicateTransactionId
    );
    let snapshot = engine.snapshot();
    assert_eq!(snapshot[0].total(), amount_from_f64(1.0).unwrap());
}

#[test]
fn order_insensitivity_across_accounts() {
    let r1 = record(TransactionType::Deposit, 1, 1, Some(2.0));
    let r2 = record(TransactionType::Deposit, 2, 2, Some(7.0));

    let mut first = Engine::new();
    first.submit(r1).unwrap();
    first.submit(r2).unwrap();
    let mut second = Engine::new();
    second.submit(r2).unwrap();
    second.submit(r1).unwrap();

    let mut a = first.snapshot();
    let mut b = second.snapshot();
    a.sort_by_key(|acc| acc.id());
    b.sort_by_key(|acc| acc.id());
    assert_eq!(a, b);
}

#[test]
fn order_sensitivity_within_account() {
    // Withdrawing before the deposit fails; after it, it succeeds.
    let deposit = record(TransactionType::Deposit, 1, 1, Some(5.0));
    let withdrawal = record(TransactionType::Withdrawal, 1, 2, Some(3.0));

    let mut first = Engine::new();
    first.submit(deposit).unwrap();
    first.submit(withdrawal).unwrap();
    assert_eq!(
        first.snapshot()[0].total(),
        amount_from_f64(2.0).unwrap()
    );

    let mut second = Engine::new();
    assert!(second.submit(withdrawal).is_err());
    second.submit(deposit).unwrap();
    assert_eq!(
        second.snapshot()[0].total(),
        amount_from_f64(5.0).unwrap()
    );
}

#[test]
fn dispute_of_spent_deposit_fails() {
    // The disputed deposit's funds were already withdrawn, so the
    // dispute reports insufficient funds and changes nothing.
    let mut engine = Engine::new();
    engine
        .submit(record(TransactionType::Deposit, 1, 1, Some(5.0)))
        .unwrap();
    engine
        .submit(record(TransactionType::Withdrawal, 1, 2, Some(4.0)))
        .unwrap();
    let err = engine
        .submit(record(TransactionType::Dispute, 1, 1, None))
        .unwrap_err();
    assert_eq!(
        err,
        transaction_processing::state::Error::Account(
            transaction_processing::account::Error::InsufficientFunds
        )
    );
    let snapshot = engine.snapshot();
    assert_eq!(snapshot[0].available(), amount_from_f64(1.0).unwrap());
    assert_eq!(snapshot[0].held(), Amount::zero());
}

#[test]
fn unconvertible_amount_is_dropped() {
    // An amount outside the representable range reaches the engine as a
    // record without an amount and is rejected, but the account entry
    // still appears in the snapshot.
    let mut engine = Engine::new();
    let err = engine
        .submit(record(TransactionType::Deposit, 4, 1, Some(f64::MAX)))
        .unwrap_err();
    assert_eq!(err, transaction_processing::state::Error::Deposit);
    let err = engine
        .submit(record(TransactionType::Withdrawal, 4, 2, Some(f64::MAX)))
        .unwrap_err();
    assert_eq!(err, transaction_processing::state::Error::Withdrawal);
    let snapshot = engine.snapshot();
    assert_eq!(snapshot.len(), 1);
    assert_eq!(snapshot[0].id(), 4);
    assert_eq!(snapshot[0].total(), Amount::zero());
}
