use pallet_tags::Config;
use pallet_tags::Error;
use pallet_tags::Ledger;
use pallet_tags::Pallet;

#[test]
fn round_trip_restores_spendable_balance() {
    // deposit = 10, caller balance = 100
    let mut ledger = Ledger::new();
    let mut registry = Pallet::new(Config { tag_name_limit: 32, tag_deposit_amount: 10 });
    ledger.set_free_balance(1, 100);

    // Creation succeeds at index 0 and locks the deposit
    assert_eq!(registry.create_tag(&mut ledger, 1, vec![65, 66, 67]), Ok(0));
    assert_eq!(ledger.free_balance(1), 90);
    assert_eq!(ledger.reserved_balance(1), 10);
    let stored = registry.tag_info(0).expect("the tag should be stored");
    assert_eq!(stored.name, vec![65, 66, 67]);
    assert_eq!(stored.owner, 1);
    assert_eq!(stored.deposit, 10);

    // Destruction gives the whole deposit back
    assert_eq!(registry.destroy_tag(&mut ledger, 1, 0), Ok(()));
    assert_eq!(ledger.free_balance(1), 100);
    assert_eq!(ledger.reserved_balance(1), 0);
    assert!(registry.tag_info(0).is_none());
}

#[test]
fn create_tag_with_insufficient_funds_changes_nothing() {
    // caller balance = 5, deposit = 10
    let mut ledger = Ledger::new();
    let mut registry = Pallet::new(Config { tag_name_limit: 32, tag_deposit_amount: 10 });
    ledger.set_free_balance(1, 5);

    assert_eq!(
        registry.create_tag(&mut ledger, 1, vec![65, 66, 67]),
        Err(Error::InsufficientFunds)
    );

    // Counter unchanged, no tag stored, balances untouched
    assert_eq!(registry.tag_index(), 0);
    assert!(registry.tag_info(0).is_none());
    assert_eq!(ledger.free_balance(1), 5);
    assert_eq!(ledger.reserved_balance(1), 0);
}

#[test]
fn destroy_of_an_unallocated_index_is_invalid() {
    let mut ledger = Ledger::new();
    let mut registry = Pallet::new(Config { tag_name_limit: 32, tag_deposit_amount: 10 });
    ledger.set_free_balance(1, 100);

    // Index 99 was never allocated
    assert_eq!(registry.destroy_tag(&mut ledger, 1, 99), Err(Error::InvalidTag));
}

#[test]
fn unauthorized_destroy_leaves_the_tag_and_both_balances() {
    let mut ledger = Ledger::new();
    let mut registry = Pallet::new(Config { tag_name_limit: 32, tag_deposit_amount: 10 });
    ledger.set_free_balance(1, 40);
    ledger.set_free_balance(2, 70);

    assert_eq!(registry.create_tag(&mut ledger, 1, vec![66]), Ok(0));

    // A different principal may not destroy the tag
    assert_eq!(registry.destroy_tag(&mut ledger, 2, 0), Err(Error::NotAllowed));

    let stored = registry.tag_info(0).expect("the tag should survive");
    assert_eq!(stored.owner, 1);
    assert_eq!(stored.deposit, 10);
    assert_eq!(ledger.free_balance(1), 30);
    assert_eq!(ledger.reserved_balance(1), 10);
    assert_eq!(ledger.free_balance(2), 70);
    assert_eq!(ledger.reserved_balance(2), 0);
}

#[test]
fn reservations_track_live_deposits_per_owner() {
    let mut ledger = Ledger::new();
    let mut registry = Pallet::new(Config { tag_name_limit: 32, tag_deposit_amount: 10 });
    ledger.set_free_balance(1, 100);
    ledger.set_free_balance(2, 100);

    assert_eq!(registry.create_tag(&mut ledger, 1, vec![65]), Ok(0));
    assert_eq!(registry.create_tag(&mut ledger, 2, vec![66]), Ok(1));
    assert_eq!(registry.create_tag(&mut ledger, 1, vec![67]), Ok(2));

    // Each account's reservation is the sum of the deposits on its live tags
    assert_eq!(ledger.reserved_balance(1), 20);
    assert_eq!(ledger.reserved_balance(2), 10);

    assert_eq!(registry.destroy_tag(&mut ledger, 1, 0), Ok(()));
    assert_eq!(ledger.reserved_balance(1), 10);
    assert_eq!(ledger.reserved_balance(2), 10);

    assert_eq!(registry.destroy_tag(&mut ledger, 2, 1), Ok(()));
    assert_eq!(registry.destroy_tag(&mut ledger, 1, 2), Ok(()));
    assert_eq!(ledger.reserved_balance(1), 0);
    assert_eq!(ledger.reserved_balance(2), 0);
    assert_eq!(ledger.free_balance(1), 100);
    assert_eq!(ledger.free_balance(2), 100);
}

#[test]
fn exhausted_counter_rolls_the_reservation_back() {
    // A registry that has already handed out every index: the next creation
    // cannot allocate, and the deposit reserved for it must come back.
    let mut ledger = Ledger::new();
    let mut registry = Pallet::new(Config { tag_name_limit: 32, tag_deposit_amount: 10 });
    let mut resumed = Pallet::resume_at(
        Config { tag_name_limit: 32, tag_deposit_amount: 10 },
        u64::MAX,
    );
    ledger.set_free_balance(1, 100);

    assert_eq!(
        resumed.create_tag(&mut ledger, 1, vec![65]),
        Err(Error::StorageOverflow)
    );

    // The counter is untouched, nothing was stored or announced, and the
    // caller's balance is exactly as before the attempt
    assert_eq!(resumed.tag_index(), u64::MAX);
    assert!(resumed.last_event().is_none());
    assert_eq!(ledger.free_balance(1), 100);
    assert_eq!(ledger.reserved_balance(1), 0);

    // A registry with room still accepts the same call
    assert_eq!(registry.create_tag(&mut ledger, 1, vec![65]), Ok(0));
}

#[test]
fn deposit_is_fixed_at_creation_time() {
    // The stored deposit follows the configuration at creation, and a later
    // destruction releases exactly the recorded amount.
    let mut ledger = Ledger::new();
    let mut registry = Pallet::new(Config { tag_name_limit: 32, tag_deposit_amount: 25 });
    ledger.set_free_balance(7, 60);

    assert_eq!(registry.create_tag(&mut ledger, 7, vec![90]), Ok(0));
    assert_eq!(ledger.free_balance(7), 35);
    let stored = registry.tag_info(0).expect("the tag should be stored");
    assert_eq!(stored.deposit, 25);

    assert_eq!(registry.destroy_tag(&mut ledger, 7, 0), Ok(()));
    assert_eq!(ledger.free_balance(7), 60);
}
