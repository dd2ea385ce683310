use ledger::client::Client;
use ledger::decimal::Decimal;
use ledger::errors::EngineError;

#[test]
fn deposit_and_withdraw_restores_available() {
    let mut c = Client::new(0);
    let d = Decimal::<4>::from_int(37);

    c.deposit_funds(d).unwrap();
    c.withdraw_funds(d).unwrap();

    assert_eq!(c.get_funds().available, Decimal::zero());
}

#[test]
fn deposit_hold_release_clears_held() {
    let mut c = Client::new(0);
    let d = Decimal::<4>::from_int(21);

    c.deposit_funds(d).unwrap();
    c.hold_funds(d).unwrap();
    c.release_funds(d).unwrap();

    assert_eq!(c.get_funds().held, Decimal::zero());
    assert_eq!(c.get_funds().available, d);
}

#[test]
fn deposit_hold_chargeback_voids_funds() {
    let mut c = Client::new(0);
    let d = Decimal::<4>::from_int(13);

    c.deposit_funds(d).unwrap();
    c.hold_funds(d).unwrap();
    c.chargeback_funds(d).unwrap();

    assert_eq!(c.get_funds().held, Decimal::zero());
    assert_eq!(c.get_funds().available, Decimal::zero());
    assert!(c.is_locked());
}

#[test]
fn locked_account_rejects_every_operation() {
    let mut c = Client::new(9);
    c.lock().unwrap();

    let d = Decimal::<4>::zero();
    assert!(matches!(c.deposit_funds(d), Err(EngineError::AccountLocked(9))));
    assert!(matches!(c.withdraw_funds(d), Err(EngineError::AccountLocked(9))));
    assert!(matches!(c.hold_funds(d), Err(EngineError::AccountLocked(9))));
    assert!(matches!(c.release_funds(d), Err(EngineError::AccountLocked(9))));
    assert!(matches!(c.chargeback_funds(d), Err(EngineError::AccountLocked(9))));
    assert!(matches!(c.lock(), Err(EngineError::AccountLocked(9))));
    assert!(c.is_locked());
}

#[test]
fn negative_amount_is_rejected_unchanged() {
    let mut c = Client::new(3);
    c.deposit_funds(Decimal::from_int(5)).unwrap();

    let neg = Decimal::<4>::from_scaled(-1);
    assert!(matches!(c.deposit_funds(neg), Err(EngineError::NegativeAmount(_))));
    assert!(matches!(c.withdraw_funds(neg), Err(EngineError::NegativeAmount(_))));
    assert!(matches!(c.hold_funds(neg), Err(EngineError::NegativeAmount(_))));
    assert_eq!(c.get_funds().available, Decimal::from_int(5));
    assert_eq!(c.get_funds().held, Decimal::zero());
}

#[test]
fn withdraw_more_than_available_is_insufficient() {
    let mut c = Client::new(2);
    c.deposit_funds(Decimal::from_int(10)).unwrap();

    let r = c.withdraw_funds(Decimal::from_int(11));
    match r {
        Err(EngineError::InsufficientFunds(id, balance, amount)) => {
            assert_eq!(id, 2);
            assert_eq!(balance, Decimal::from_int(10));
            assert_eq!(amount, Decimal::from_int(11));
        },
        other => panic!("expected InsufficientFunds, got {:?}", other),
    }
    assert_eq!(c.get_funds().available, Decimal::from_int(10));
}

#[test]
fn hold_without_sufficiency_check_can_overdraw_available() {
    let mut c = Client::new(4);
    c.deposit_funds(Decimal::from_int(10)).unwrap();
    c.withdraw_funds(Decimal::from_int(6)).unwrap();

    c.hold_funds(Decimal::from_int(10)).unwrap();

    assert_eq!(c.get_funds().available, Decimal::from_scaled(-60_000));
    assert_eq!(c.get_funds().held, Decimal::from_int(10));
}

#[test]
fn release_more_than_held_is_insufficient() {
    let mut c = Client::new(5);
    c.deposit_funds(Decimal::from_int(8)).unwrap();
    c.hold_funds(Decimal::from_int(3)).unwrap();

    assert!(matches!(
        c.release_funds(Decimal::from_int(4)),
        Err(EngineError::InsufficientFunds(5, _, _))
    ));
    assert_eq!(c.get_funds().held, Decimal::from_int(3));
}
