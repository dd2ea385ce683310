use ledger::decimal::Decimal;
use ledger::engine::{deposit, withdrawal, Engine};
use ledger::errors::EngineError;
use ledger::transaction::{Transaction, TransactionDisputeStatus, TransactionType};

fn amount(n: i64) -> Decimal<4> {
    Decimal::from_int(n)
}

#[test]
fn deposit_correct_execution() {
    let mut e = Engine::new();

    deposit::execute(&mut e, &Transaction::new(TransactionType::DEPOSIT, 1, 1, amount(100)))
        .unwrap();

    assert_eq!(e.get_client(1).unwrap().get_funds().available, amount(100));
}

#[test]
fn withdrawal_correct_execution() {
    let mut e = Engine::new();

    deposit::execute(&mut e, &Transaction::new(TransactionType::DEPOSIT, 1, 2, amount(100)))
        .unwrap();
    withdrawal::execute(&mut e, &Transaction::new(TransactionType::WITHDRAWAL, 1, 1, amount(50)))
        .unwrap();

    assert_eq!(e.get_client(1).unwrap().get_funds().available, amount(50));
}

#[test]
fn deposits_and_withdrawal_settle() {
    let mut e = Engine::new();
    e.execute(&Transaction::new(TransactionType::DEPOSIT, 1, 1, amount(100))).unwrap();
    e.execute(&Transaction::new(TransactionType::DEPOSIT, 1, 2, amount(50))).unwrap();
    e.execute(&Transaction::new(TransactionType::WITHDRAWAL, 1, 3, amount(30))).unwrap();

    let c = e.get_client(1).unwrap();
    let f = c.get_funds();
    assert_eq!(f.available.to_string(), "120.0000");
    assert_eq!(f.held.to_string(), "0.0000");
    assert_eq!(f.available.add(f.held).to_string(), "120.0000");
    assert!(!c.is_locked());
}

#[test]
fn dispute_holds_deposited_funds() {
    let mut e = Engine::new();
    e.execute(&Transaction::new(TransactionType::DEPOSIT, 1, 1, amount(100))).unwrap();
    e.execute(&Transaction::new(TransactionType::DISPUTE, 1, 1, Decimal::zero())).unwrap();

    let c = e.get_client(1).unwrap();
    let f = c.get_funds();
    assert_eq!(f.available.to_string(), "0.0000");
    assert_eq!(f.held.to_string(), "100.0000");
    assert_eq!(f.available.add(f.held).to_string(), "100.0000");
    assert!(!c.is_locked());

    let (stored, _) = e.get_mut_transaction_client_pair(1).unwrap();
    assert_eq!(stored.dispute_status, TransactionDisputeStatus::DISPUTED);
}

#[test]
fn resolve_releases_disputed_funds() {
    let mut e = Engine::new();
    e.execute(&Transaction::new(TransactionType::DEPOSIT, 1, 1, amount(100))).unwrap();
    e.execute(&Transaction::new(TransactionType::DISPUTE, 1, 1, Decimal::zero())).unwrap();
    e.execute(&Transaction::new(TransactionType::RESOLVE, 1, 1, Decimal::zero())).unwrap();

    let c = e.get_client(1).unwrap();
    let f = c.get_funds();
    assert_eq!(f.available.to_string(), "100.0000");
    assert_eq!(f.held.to_string(), "0.0000");
    assert!(!c.is_locked());

    let (stored, _) = e.get_mut_transaction_client_pair(1).unwrap();
    assert_eq!(stored.dispute_status, TransactionDisputeStatus::NONE);
}

#[test]
fn overdrawing_withdrawal_fails_and_stores_nothing() {
    let mut e = Engine::new();
    e.execute(&Transaction::new(TransactionType::DEPOSIT, 1, 1, amount(100))).unwrap();

    let r = e.execute(&Transaction::new(TransactionType::WITHDRAWAL, 1, 2, amount(150)));
    match r {
        Err(EngineError::InsufficientFunds(id, balance, requested)) => {
            assert_eq!(id, 1);
            assert_eq!(balance, amount(100));
            assert_eq!(requested, amount(150));
        },
        other => panic!("expected InsufficientFunds, got {:?}", other),
    }

    assert_eq!(e.get_client(1).unwrap().get_funds().available, amount(100));
    assert!(matches!(
        e.get_mut_transaction_client_pair(2),
        Err(EngineError::TransactionNotFound(2))
    ));
}

#[test]
fn dispute_of_unknown_transaction_changes_nothing() {
    let mut e = Engine::new();

    let r = e.execute(&Transaction::new(TransactionType::DISPUTE, 1, 99, Decimal::zero()));

    assert!(matches!(r, Err(EngineError::TransactionNotFound(99))));
    assert!(e.get_client(1).is_none());
    assert!(e.iter_clients().is_empty());
}

#[test]
fn withdrawal_for_unknown_client_fails() {
    let mut e = Engine::new();
    let r = e.execute(&Transaction::new(TransactionType::WITHDRAWAL, 7, 1, amount(5)));
    assert!(matches!(r, Err(EngineError::ClientNotFound(7))));
}

#[test]
fn negative_deposit_creates_no_account() {
    let mut e = Engine::new();
    let r = e.execute(
        &Transaction::new(TransactionType::DEPOSIT, 1, 1, Decimal::from_scaled(-10_000)),
    );
    assert!(matches!(r, Err(EngineError::NegativeAmount(_))));
    assert!(e.get_client(1).is_none());
}

#[test]
fn resolve_of_undisputed_transaction_is_invalid_status() {
    let mut e = Engine::new();
    e.execute(&Transaction::new(TransactionType::DEPOSIT, 1, 1, amount(100))).unwrap();

    let r = e.execute(&Transaction::new(TransactionType::RESOLVE, 1, 1, Decimal::zero()));
    assert!(matches!(r, Err(EngineError::TransactionInvalidStatus(1))));

    let r = e.execute(&Transaction::new(TransactionType::CHARGEBACK, 1, 1, Decimal::zero()));
    assert!(matches!(r, Err(EngineError::TransactionInvalidStatus(1))));

    let (stored, _) = e.get_mut_transaction_client_pair(1).unwrap();
    assert_eq!(stored.dispute_status, TransactionDisputeStatus::NONE);
}

#[test]
fn double_dispute_is_invalid_status() {
    let mut e = Engine::new();
    e.execute(&Transaction::new(TransactionType::DEPOSIT, 1, 1, amount(100))).unwrap();
    e.execute(&Transaction::new(TransactionType::DISPUTE, 1, 1, Decimal::zero())).unwrap();

    let r = e.execute(&Transaction::new(TransactionType::DISPUTE, 1, 1, Decimal::zero()));
    assert!(matches!(r, Err(EngineError::TransactionInvalidStatus(1))));
}

#[test]
fn deposit_chargeback_voids_funds_and_locks_but_reports_redundant_lock() {
    let mut e = Engine::new();
    e.execute(&Transaction::new(TransactionType::DEPOSIT, 1, 1, amount(100))).unwrap();
    e.execute(&Transaction::new(TransactionType::DISPUTE, 1, 1, Decimal::zero())).unwrap();

    let r = e.execute(&Transaction::new(TransactionType::CHARGEBACK, 1, 1, Decimal::zero()));
    assert!(matches!(r, Err(EngineError::AccountLocked(1))));

    let c = e.get_client(1).unwrap();
    assert_eq!(c.get_funds().available.to_string(), "0.0000");
    assert_eq!(c.get_funds().held.to_string(), "0.0000");
    assert!(c.is_locked());

    let (stored, _) = e.get_mut_transaction_client_pair(1).unwrap();
    assert_eq!(stored.dispute_status, TransactionDisputeStatus::DISPUTED);
}

#[test]
fn withdrawal_chargeback_refunds_and_locks() {
    let mut e = Engine::new();
    e.execute(&Transaction::new(TransactionType::DEPOSIT, 1, 1, amount(100))).unwrap();
    e.execute(&Transaction::new(TransactionType::WITHDRAWAL, 1, 2, amount(40))).unwrap();
    e.execute(&Transaction::new(TransactionType::DISPUTE, 1, 2, Decimal::zero())).unwrap();
    e.execute(&Transaction::new(TransactionType::CHARGEBACK, 1, 2, Decimal::zero())).unwrap();

    let c = e.get_client(1).unwrap();
    assert_eq!(c.get_funds().available.to_string(), "100.0000");
    assert_eq!(c.get_funds().held.to_string(), "0.0000");
    assert!(c.is_locked());

    let (stored, _) = e.get_mut_transaction_client_pair(2).unwrap();
    assert_eq!(stored.dispute_status, TransactionDisputeStatus::REVERSED);
}

#[test]
fn dispute_of_undisputable_kind_is_invalid_type() {
    let mut e = Engine::new();
    // A record of a kind that cannot be disputed can only arrive through the
    // deposit path directly, which stores the record as given.
    deposit::execute(&mut e, &Transaction::new(TransactionType::RESOLVE, 1, 1, amount(5)))
        .unwrap();

    let r = e.execute(&Transaction::new(TransactionType::DISPUTE, 1, 1, Decimal::zero()));
    assert!(matches!(r, Err(EngineError::InvalidTransactionType)));
}

#[test]
fn iter_clients_keeps_creation_order() {
    let mut e = Engine::new();
    e.execute(&Transaction::new(TransactionType::DEPOSIT, 5, 1, amount(1))).unwrap();
    e.execute(&Transaction::new(TransactionType::DEPOSIT, 2, 2, amount(2))).unwrap();
    e.execute(&Transaction::new(TransactionType::DEPOSIT, 9, 3, amount(3))).unwrap();

    let all = e.iter_clients();
    let ids: Vec<u16> = all.iter().map(|c| c.id()).collect();
    assert_eq!(ids, vec![5, 2, 9]);
}

#[test]
fn can_execute_spots_arithmetic_overflow() {
    let mut e = Engine::new();
    e.execute(&Transaction::new(TransactionType::DEPOSIT, 1, 1, Decimal::from_scaled(i64::MAX)))
        .unwrap();

    let more = Transaction::new(TransactionType::DEPOSIT, 1, 2, Decimal::from_scaled(1));
    assert!(!e.can_execute(&more));

    let fine = Transaction::new(TransactionType::WITHDRAWAL, 1, 3, amount(1));
    assert!(e.can_execute(&fine));
}

#[test]
fn error_messages_render_like_the_engine_reports() {
    assert_eq!(
        EngineError::ClientNotFound(7).to_string(),
        "Client with id 7 not found."
    );
    assert_eq!(
        EngineError::TransactionNotFound(99).to_string(),
        "Transaction with id 99 not found."
    );
    assert_eq!(
        EngineError::TransactionInvalidStatus(4).to_string(),
        "Invalid transaction 4 status."
    );
    assert_eq!(
        EngineError::InsufficientFunds(1, amount(100), amount(150)).to_string(),
        "Client 1 balance (= 100.0000) < requested amount (= 150.0000)"
    );
    assert_eq!(
        EngineError::AccountLocked(3).to_string(),
        "Client with id 3 has the account locked."
    );
    assert_eq!(
        EngineError::NegativeAmount(Decimal::from_scaled(-25_000)).to_string(),
        "Amount -2.5000 must be greater or equal to zero."
    );
    assert_eq!(EngineError::InvalidTransactionType.to_string(), "Invalid transaction type");
    assert_eq!(EngineError::IOError("boom").to_string(), "IO Error: boom");
    assert_eq!(
        EngineError::DeserializationError("bad row").to_string(),
        "Deserialization error: bad row."
    );
}

#[test]
fn transaction_new_starts_undisputed() {
    let t = Transaction::new(TransactionType::DEPOSIT, 1, 2, amount(3));
    assert_eq!(t.kind, TransactionType::DEPOSIT);
    assert_eq!(t.client, 1);
    assert_eq!(t.tx, 2);
    assert_eq!(t.amount, amount(3));
    assert_eq!(t.dispute_status, TransactionDisputeStatus::NONE);
    assert_eq!(TransactionDisputeStatus::default(), TransactionDisputeStatus::NONE);

    assert!(t.assure_status(TransactionDisputeStatus::NONE).is_ok());
    assert!(matches!(
        t.assure_status(TransactionDisputeStatus::DISPUTED),
        Err(EngineError::TransactionInvalidStatus(2))
    ));
}

#[test]
fn duplicate_transaction_id_replaces_the_record() {
    let mut e = Engine::new();
    e.execute(&Transaction::new(TransactionType::DEPOSIT, 1, 1, amount(10))).unwrap();
    e.execute(&Transaction::new(TransactionType::DEPOSIT, 1, 1, amount(20))).unwrap();

    assert_eq!(e.get_client(1).unwrap().get_funds().available, amount(30));
    let (stored, _) = e.get_mut_transaction_client_pair(1).unwrap();
    assert_eq!(stored.amount, amount(20));
}

#[test]
fn reversed_record_is_terminal() {
    let mut e = Engine::new();
    e.execute(&Transaction::new(TransactionType::DEPOSIT, 1, 1, amount(100))).unwrap();
    e.execute(&Transaction::new(TransactionType::WITHDRAWAL, 1, 2, amount(40))).unwrap();
    e.execute(&Transaction::new(TransactionType::DISPUTE, 1, 2, Decimal::zero())).unwrap();
    e.execute(&Transaction::new(TransactionType::CHARGEBACK, 1, 2, Decimal::zero())).unwrap();

    for kind in [
        TransactionType::DISPUTE,
        TransactionType::RESOLVE,
        TransactionType::CHARGEBACK,
    ] {
        let r = e.execute(&Transaction::new(kind, 1, 2, Decimal::zero()));
        assert!(matches!(r, Err(EngineError::TransactionInvalidStatus(2))));
    }
    let (stored, _) = e.get_mut_transaction_client_pair(2).unwrap();
    assert_eq!(stored.dispute_status, TransactionDisputeStatus::REVERSED);
}

#[test]
fn disputed_withdrawal_resolve_moves_no_funds() {
    let mut e = Engine::new();
    e.execute(&Transaction::new(TransactionType::DEPOSIT, 1, 1, amount(100))).unwrap();
    e.execute(&Transaction::new(TransactionType::WITHDRAWAL, 1, 2, amount(40))).unwrap();
    e.execute(&Transaction::new(TransactionType::DISPUTE, 1, 2, Decimal::zero())).unwrap();

    let before = e.get_client(1).unwrap().get_funds();
    assert_eq!(before.available.to_string(), "60.0000");
    assert_eq!(before.held.to_string(), "0.0000");

    e.execute(&Transaction::new(TransactionType::RESOLVE, 1, 2, Decimal::zero())).unwrap();

    let after = e.get_client(1).unwrap().get_funds();
    assert_eq!(after.available.to_string(), "60.0000");
    assert_eq!(after.held.to_string(), "0.0000");
    let (stored, _) = e.get_mut_transaction_client_pair(2).unwrap();
    assert_eq!(stored.dispute_status, TransactionDisputeStatus::NONE);
}
