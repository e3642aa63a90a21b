use pallet_tags::Ledger;

#[test]
fn reserve_moves_funds_into_reservation() {
    let mut ledger = Ledger::new();
    ledger.set_free_balance(3, 50);

    assert!(ledger.reserve(3, 20).is_ok());
    assert_eq!(ledger.free_balance(3), 30);
    assert_eq!(ledger.reserved_balance(3), 20);
}

#[test]
fn reserve_fails_without_enough_free_balance() {
    let mut ledger = Ledger::new();
    ledger.set_free_balance(3, 5);

    assert!(ledger.reserve(3, 10).is_err());
    assert_eq!(ledger.free_balance(3), 5);
    assert_eq!(ledger.reserved_balance(3), 0);

    // An account the ledger has no record of holds nothing
    assert!(ledger.reserve(4, 1).is_err());
    assert_eq!(ledger.free_balance(4), 0);
}

#[test]
fn release_is_capped_by_the_reservation() {
    let mut ledger = Ledger::new();
    ledger.set_free_balance(3, 50);
    assert!(ledger.reserve(3, 20).is_ok());

    // Releasing more than is reserved moves back only what is reserved
    ledger.release(3, 100);
    assert_eq!(ledger.free_balance(3), 50);
    assert_eq!(ledger.reserved_balance(3), 0);

    // A further release has nothing left to move
    ledger.release(3, 1);
    assert_eq!(ledger.free_balance(3), 50);
    assert_eq!(ledger.reserved_balance(3), 0);
}

#[test]
fn release_on_an_unknown_account_does_nothing() {
    let mut ledger = Ledger::new();
    ledger.release(9, 10);
    assert_eq!(ledger.free_balance(9), 0);
    assert_eq!(ledger.reserved_balance(9), 0);
}

#[test]
fn set_free_balance_keeps_the_reservation() {
    let mut ledger = Ledger::new();
    ledger.set_free_balance(3, 50);
    assert!(ledger.reserve(3, 20).is_ok());

    ledger.set_free_balance(3, 7);
    assert_eq!(ledger.free_balance(3), 7);
    assert_eq!(ledger.reserved_balance(3), 20);
}
