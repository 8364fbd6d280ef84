use cess_pallets::file_bank::Pallet;
use cess_pallets::types::{Config, Effect, Error, LeaseState, G_BYTE, T_BYTE};

const ALICE: u64 = 1;
const BOB: u64 = 2;
const NETWORK: u128 = 1_000_000_000_000;

fn ledger() -> Pallet {
    Pallet::new(Config { string_limit: 64, item_limit: 100, one_day: 28_800, pallet_id: *b"filebank" })
}

#[test]
fn new_ledger_is_empty() {
    let ledger = ledger();
    assert_eq!(ledger.purchase_package(ALICE), None);
    assert_eq!(ledger.file(&b"h".to_vec()), None);
    assert_eq!(ledger.invalid_file(ALICE).len(), 0);
    assert_eq!(ledger.user_hold_file_list(ALICE).len(), 0);
    assert_eq!(ledger.members().len(), 0);
    assert_eq!(ledger.unit_price(), 0);
    assert_eq!(ledger.config().one_day, 28_800);
}

#[test]
fn smallest_package_is_priced_for_its_space() {
    let mut ledger = ledger();
    // unit price = 10 GiB * 10^16 / 10^12 + 10^15 = 1_107_374_182_400_000
    // per GiB    = 1_107_374_182_400_000 / 2^30 = 1_031_322 (rounded down)
    // cost       = 10 * 1_031_322
    let effects = ledger.buy_package(ALICE, 1, 0, 500, NETWORK).unwrap();
    assert_eq!(1_107_374_182_400_000u128 / G_BYTE, 1_031_322);
    assert_eq!(effects, vec![Effect::Transfer { from: ALICE, amount: 10_313_220 }]);
    let lease = ledger.purchase_package(ALICE).unwrap();
    assert_eq!(lease.space, 10 * G_BYTE);
    assert_eq!(lease.used_space, 0);
    assert_eq!(lease.remaining_space, 10 * G_BYTE);
    assert_eq!(lease.tenancy, 1);
    assert_eq!(lease.package_type, 1);
    assert_eq!(lease.start, 500);
    assert_eq!(lease.deadline, 500 + 864_000);
    assert_eq!(lease.state, LeaseState::Normal);
}

#[test]
fn priced_package_transfers_its_cost() {
    let mut ledger = ledger();
    // unit price = 500 GiB * 10^16 / 10^12 + 10^15 = 6_368_709_120_000_000
    // per GiB    = 6_368_709_120_000_000 / 2^30 = 5_931_322 (rounded down)
    // cost       = 500 * 5_931_322
    let effects = ledger.buy_package(ALICE, 2, 0, 0, NETWORK).unwrap();
    assert_eq!(6_368_709_120_000_000u128 / G_BYTE, 5_931_322);
    assert_eq!(effects, vec![Effect::Transfer { from: ALICE, amount: 2_965_661_000 }]);
    assert_eq!(ledger.purchase_package(ALICE).unwrap().space, 500 * G_BYTE);
}

#[test]
fn fourth_package_has_one_tebibyte_and_is_priced_for_it() {
    let mut ledger = ledger();
    // unit price = 1 TiB * 10^16 / 10^12 + 10^15, per GiB it is divided by 2^30,
    // and the package has 1024 GiB
    let unit = T_BYTE * 10_000 + 1_000_000_000_000_000;
    let effects = ledger.buy_package(ALICE, 4, 0, 0, NETWORK).unwrap();
    assert_eq!(effects, vec![Effect::Transfer { from: ALICE, amount: 1024 * (unit / G_BYTE) }]);
    let lease = ledger.purchase_package(ALICE).unwrap();
    assert_eq!((lease.space, lease.package_type), (T_BYTE, 4));
    // the third package costs the same
    let mut other = self::ledger();
    assert_eq!(
        other.buy_package(ALICE, 3, 0, 0, NETWORK).unwrap(),
        vec![Effect::Transfer { from: ALICE, amount: 1024 * (unit / G_BYTE) }]
    );
}

#[test]
fn buying_twice_is_refused() {
    let mut ledger = ledger();
    ledger.buy_package(ALICE, 1, 0, 0, NETWORK).unwrap();
    let before = ledger.purchase_package(ALICE);
    assert_eq!(ledger.buy_package(ALICE, 2, 0, 10, NETWORK), Err(Error::AlreadyPurchased));
    // also when the second purchase is invalid in itself
    assert_eq!(ledger.buy_package(ALICE, 9, 0, 10, NETWORK), Err(Error::AlreadyPurchased));
    assert_eq!(ledger.purchase_package(ALICE), before);
    // another account is free to buy
    assert!(ledger.buy_package(BOB, 1, 0, 10, NETWORK).is_ok());
}

#[test]
fn tier_five_with_count_three_is_invalid() {
    let mut ledger = ledger();
    assert_eq!(ledger.buy_package(ALICE, 5, 3, 0, NETWORK), Err(Error::InvalidTier));
    assert_eq!(ledger.purchase_package(ALICE), None);
}

#[test]
fn tier_five_with_count_ten_has_ten_units() {
    let mut ledger = ledger();
    assert!(ledger.buy_package(ALICE, 5, 10, 0, NETWORK).is_ok());
    let lease = ledger.purchase_package(ALICE).unwrap();
    assert_eq!(lease.space, 10 * T_BYTE);
    assert_eq!(lease.package_type, 5);
    assert_eq!(lease.used_space + lease.remaining_space, lease.space);
}

#[test]
fn purchase_without_network_capacity_fails_for_every_package() {
    let mut ledger = ledger();
    for package in 1u8..=5 {
        assert_eq!(ledger.buy_package(ALICE, package, 5, 0, 0), Err(Error::DivisionByZero));
    }
    // an unknown package is refused before the price is asked for
    assert_eq!(ledger.buy_package(ALICE, 6, 5, 0, 0), Err(Error::InvalidTier));
    assert_eq!(ledger.purchase_package(ALICE), None);
}

#[test]
fn purchase_near_the_end_of_the_clock_overflows() {
    let mut ledger = ledger();
    assert_eq!(ledger.buy_package(ALICE, 1, 0, u32::MAX - 863_999, NETWORK), Err(Error::Overflow));
    assert_eq!(ledger.purchase_package(ALICE), None);
    assert!(ledger.buy_package(ALICE, 1, 0, u32::MAX - 864_000, NETWORK).is_ok());
    assert_eq!(ledger.purchase_package(ALICE).unwrap().deadline, u32::MAX);
}

#[test]
fn purchase_whose_cost_does_not_fit_overflows() {
    let mut ledger = ledger();
    // a tiny network makes the unit price huge
    assert_eq!(ledger.buy_package(ALICE, 5, 1 << 40, 0, 1), Err(Error::Overflow));
    assert_eq!(ledger.purchase_package(ALICE), None);
}

#[test]
fn add_purchased_package_records_a_fresh_lease() {
    let mut ledger = ledger();
    ledger.add_purchased_package(ALICE, 1000, 2, 3, 7).unwrap();
    let lease = ledger.purchase_package(ALICE).unwrap();
    assert_eq!((lease.space, lease.used_space, lease.remaining_space), (1000, 0, 1000));
    assert_eq!((lease.tenancy, lease.package_type, lease.start), (2, 3, 7));
    assert_eq!(lease.deadline, 7 + 2 * 864_000);
    assert_eq!(lease.state, LeaseState::Normal);
}

#[test]
fn add_purchased_package_never_replaces_a_lease() {
    let mut ledger = ledger();
    ledger.add_purchased_package(ALICE, 1000, 2, 3, 7).unwrap();
    ledger.credit_usage(ALICE, 400).unwrap();
    let before = ledger.purchase_package(ALICE);
    assert_eq!(ledger.add_purchased_package(ALICE, 50, 1, 1, 9), Err(Error::AlreadyPurchased));
    assert_eq!(ledger.add_purchased_package(ALICE, 50, 1, 0, 9), Err(Error::AlreadyPurchased));
    assert_eq!(ledger.purchase_package(ALICE), before);
}

#[test]
fn add_purchased_package_checks_tier_and_deadline() {
    let mut ledger = ledger();
    assert_eq!(ledger.add_purchased_package(ALICE, 1000, 1, 0, 0), Err(Error::InvalidTier));
    assert_eq!(ledger.add_purchased_package(ALICE, 1000, 1, 6, 0), Err(Error::InvalidTier));
    assert_eq!(ledger.add_purchased_package(ALICE, 1000, 4972, 1, 0), Err(Error::Overflow));
    assert_eq!(ledger.add_purchased_package(ALICE, 1000, 4971, 1, 24_000), Err(Error::Overflow));
    assert_eq!(ledger.add_purchased_package(ALICE, 1000, 1, 1, u32::MAX), Err(Error::Overflow));
    assert_eq!(ledger.purchase_package(ALICE), None);
}

#[test]
fn usage_is_credited_and_debited_on_the_lease() {
    let mut ledger = ledger();
    ledger.add_purchased_package(ALICE, 1000, 1, 1, 0).unwrap();
    ledger.credit_usage(ALICE, 300).unwrap();
    ledger.credit_usage(ALICE, 200).unwrap();
    let lease = ledger.purchase_package(ALICE).unwrap();
    assert_eq!((lease.used_space, lease.remaining_space), (500, 500));
    ledger.debit_usage(ALICE, 120).unwrap();
    let lease = ledger.purchase_package(ALICE).unwrap();
    assert_eq!((lease.used_space, lease.remaining_space), (380, 620));
    assert_eq!(lease.used_space + lease.remaining_space, lease.space);
}

#[test]
fn usage_errors_leave_the_lease_alone() {
    let mut ledger = ledger();
    assert_eq!(ledger.credit_usage(ALICE, 1), Err(Error::NotPurchased));
    assert_eq!(ledger.debit_usage(ALICE, 1), Err(Error::NotPurchased));
    ledger.add_purchased_package(ALICE, 1000, 1, 1, 0).unwrap();
    ledger.credit_usage(ALICE, 300).unwrap();
    let before = ledger.purchase_package(ALICE);
    assert_eq!(ledger.credit_usage(ALICE, 701), Err(Error::InsufficientStorage));
    assert_eq!(ledger.debit_usage(ALICE, 301), Err(Error::Overflow));
    assert_eq!(ledger.purchase_package(ALICE), before);
}

#[test]
fn unit_price_is_set_to_one_hundred() {
    let mut ledger = ledger();
    ledger.update_price_for_tests();
    assert_eq!(ledger.unit_price(), 100);
}
