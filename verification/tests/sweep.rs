use cess_pallets::file_bank::Pallet;
use cess_pallets::tee_worker;
use cess_pallets::types::{Config, Effect, Error, Event, LeaseState, MinerCapacity};

const ALICE: u64 = 1;
const BOB: u64 = 2;
const CAROL: u64 = 3;
const COORDINATOR: u64 = 50;
const MINER: u64 = 70;
const DAY: u32 = 100;
const DEADLINE: u32 = 864_000;

fn ledger() -> Pallet {
    Pallet::new(Config { string_limit: 16, item_limit: 16, one_day: DAY, pallet_id: *b"filebank" })
}

fn coordinators() -> tee_worker::Pallet {
    let mut registry = tee_worker::Pallet::new(4);
    registry
        .regist_scheduler(COORDINATOR, 51, [0; 32], [0; 53], [0; 294], Some(COORDINATOR), true)
        .unwrap();
    registry
}

fn store(ledger: &mut Pallet, hash: &[u8], size: u64, user: u64) -> Result<Vec<Effect>, Error> {
    ledger.upload(
        &coordinators(),
        COORDINATOR,
        hash.to_vec(),
        size,
        4,
        512,
        1024,
        MINER,
        9,
        b"ip".to_vec(),
        user,
        MinerCapacity { power: 1 << 40, space: 0 },
    )
}

#[test]
fn sweep_runs_once_a_day() {
    let mut ledger = ledger();
    ledger.add_purchased_package(ALICE, 1000, 1, 1, 0).unwrap();
    let before = ledger.duplicate();
    // long past the deadline, and not at the start of a day
    assert_eq!(ledger.on_initialize(DEADLINE + 1), vec![]);
    assert_eq!(ledger.on_initialize(DEADLINE + DAY - 1), vec![]);
    assert_eq!(ledger, before);
}

#[test]
fn lease_before_its_deadline_is_left_alone() {
    let mut ledger = ledger();
    ledger.add_purchased_package(ALICE, 1000, 1, 1, 0).unwrap();
    let before = ledger.duplicate();
    assert_eq!(ledger.on_initialize(0), vec![]);
    assert_eq!(ledger.on_initialize(DEADLINE - DAY), vec![]);
    assert_eq!(ledger, before);
}

#[test]
fn package_without_grace_expires_at_its_deadline() {
    let mut ledger = ledger();
    ledger.add_purchased_package(ALICE, 1000, 1, 1, 0).unwrap();
    assert_eq!(
        ledger.on_initialize(DEADLINE),
        vec![Effect::Deposit(Event::LeaseExpired { acc: ALICE, size: 1000 })]
    );
    assert_eq!(ledger.purchase_package(ALICE), None);
    // the account can buy again
    assert!(ledger.buy_package(ALICE, 1, 0, DEADLINE, 1 << 50).is_ok());
}

#[test]
fn lease_is_frozen_during_its_days_of_grace() {
    for (package, days) in [(2u8, 7u32), (3, 14), (4, 20), (5, 30)] {
        let mut ledger = ledger();
        ledger.add_purchased_package(ALICE, 1000, 1, package, 0).unwrap();
        assert_eq!(ledger.on_initialize(DEADLINE), vec![]);
        assert_eq!(ledger.purchase_package(ALICE).unwrap().state, LeaseState::Frozen);
        assert_eq!(ledger.on_initialize(DEADLINE + (days - 1) * DAY), vec![]);
        let lease = ledger.purchase_package(ALICE).unwrap();
        assert_eq!(lease.state, LeaseState::Frozen);
        assert_eq!((lease.space, lease.used_space, lease.remaining_space), (1000, 0, 1000));
        assert_eq!(
            ledger.on_initialize(DEADLINE + days * DAY),
            vec![Effect::Deposit(Event::LeaseExpired { acc: ALICE, size: 1000 })]
        );
        assert_eq!(ledger.purchase_package(ALICE), None);
    }
}

#[test]
fn frozen_lease_blocks_new_files_and_keeps_the_old() {
    let mut ledger = ledger();
    ledger.add_purchased_package(ALICE, 1000, 1, 2, 0).unwrap();
    ledger.upload_declaration(ALICE, b"kept".to_vec(), b"a".to_vec()).unwrap();
    store(&mut ledger, b"kept", 100, ALICE).unwrap();
    ledger.upload_declaration(ALICE, b"late".to_vec(), b"b".to_vec()).unwrap();
    ledger.on_initialize(DEADLINE);
    assert_eq!(store(&mut ledger, b"late", 100, ALICE), Err(Error::Frozen));
    assert_eq!(ledger.credit_usage(ALICE, 1), Err(Error::Frozen));
    assert_eq!(ledger.buy_package(ALICE, 1, 0, DEADLINE, 1 << 50), Err(Error::AlreadyPurchased));
    assert!(ledger.file(&b"kept".to_vec()).is_some());
    assert_eq!(ledger.purchase_package(ALICE).unwrap().used_space, 100);
    // a frozen lease can still give files up
    assert!(ledger.delete_file(ALICE, b"kept".to_vec()).is_ok());
    assert_eq!(ledger.purchase_package(ALICE).unwrap().used_space, 0);
}

#[test]
fn expiry_releases_what_the_account_holds() {
    let mut ledger = ledger();
    ledger.add_purchased_package(ALICE, 1000, 1, 1, 0).unwrap();
    ledger.add_purchased_package(BOB, 1000, 12, 1, 0).unwrap();
    ledger.upload_declaration(ALICE, b"own".to_vec(), b"a".to_vec()).unwrap();
    store(&mut ledger, b"own", 100, ALICE).unwrap();
    ledger.upload_declaration(BOB, b"shared".to_vec(), b"b".to_vec()).unwrap();
    store(&mut ledger, b"shared", 200, BOB).unwrap();
    ledger.upload_declaration(ALICE, b"shared".to_vec(), b"a".to_vec()).unwrap();
    assert_eq!(ledger.purchase_package(ALICE).unwrap().used_space, 300);

    let effects = ledger.on_initialize(DEADLINE);
    assert_eq!(
        effects,
        vec![
            Effect::SubPower { miner: MINER, amount: 100 },
            Effect::SubSpace { miner: MINER, amount: 100 },
            Effect::Deposit(Event::LeaseExpired { acc: ALICE, size: 1000 }),
        ]
    );
    assert_eq!(ledger.purchase_package(ALICE), None);
    assert_eq!(ledger.user_hold_file_list(ALICE).len(), 0);
    assert_eq!(ledger.file(&b"own".to_vec()), None);
    assert_eq!(ledger.invalid_file(MINER).to_vec(), vec![b"own".to_vec()]);
    // the shared file stays with its other owner, whose lease runs on
    let shared = ledger.file(&b"shared".to_vec()).unwrap();
    assert_eq!(shared.user.to_vec(), vec![BOB]);
    assert_eq!(shared.file_name.to_vec(), vec![b"b".to_vec()]);
    let lease = ledger.purchase_package(BOB).unwrap();
    assert_eq!((lease.used_space, lease.state), (200, LeaseState::Normal));
}

#[test]
fn expiry_copes_with_a_file_that_is_held_twice() {
    let mut ledger = ledger();
    ledger.add_purchased_package(ALICE, 1000, 1, 1, 0).unwrap();
    ledger.add_purchased_package(BOB, 1000, 1, 1, 0).unwrap();
    ledger.upload_declaration(ALICE, b"h".to_vec(), b"a".to_vec()).unwrap();
    // Bob joins the declared file and is then the one it is uploaded for
    ledger.upload_declaration(BOB, b"h".to_vec(), b"b".to_vec()).unwrap();
    store(&mut ledger, b"h", 10, BOB).unwrap();
    assert_eq!(ledger.user_hold_file_list(BOB).len(), 2);
    assert_eq!(
        ledger.on_initialize(DEADLINE),
        vec![
            Effect::Deposit(Event::LeaseExpired { acc: ALICE, size: 1000 }),
            Effect::Deposit(Event::LeaseExpired { acc: BOB, size: 1000 }),
        ]
    );
    assert_eq!(ledger.file(&b"h".to_vec()).unwrap().user.to_vec(), vec![ALICE]);
    assert_eq!(ledger.user_hold_file_list(BOB).len(), 0);
}

#[test]
fn leases_are_swept_in_the_order_of_their_accounts() {
    let mut ledger = ledger();
    for acc in [CAROL, ALICE, BOB] {
        ledger.add_purchased_package(acc, acc as u128 * 10, 1, 1, 0).unwrap();
    }
    assert_eq!(
        ledger.on_initialize(DEADLINE + 5 * DAY),
        vec![
            Effect::Deposit(Event::LeaseExpired { acc: ALICE, size: 10 }),
            Effect::Deposit(Event::LeaseExpired { acc: BOB, size: 20 }),
            Effect::Deposit(Event::LeaseExpired { acc: CAROL, size: 30 }),
        ]
    );
}

#[test]
fn lease_expires_though_a_file_of_its_index_is_gone() {
    let mut ledger = ledger();
    // Alice is due for a freeze, Bob and Carol for expiry
    ledger.add_purchased_package(ALICE, 1000, 1, 2, 0).unwrap();
    ledger.add_purchased_package(BOB, 1000, 1, 1, 0).unwrap();
    ledger.add_purchased_package(CAROL, 777, 1, 1, 0).unwrap();
    ledger.upload_declaration(BOB, b"gone".to_vec(), b"b".to_vec()).unwrap();
    store(&mut ledger, b"gone", 20, BOB).unwrap();
    ledger.upload_declaration(BOB, b"fine".to_vec(), b"b".to_vec()).unwrap();
    store(&mut ledger, b"fine", 10, BOB).unwrap();
    // the first file of Bob leaves the ledger behind his back
    ledger.clear_file(b"gone".to_vec()).unwrap();
    assert_eq!(ledger.user_hold_file_list(BOB).len(), 2);
    assert_eq!(
        ledger.on_initialize(DEADLINE),
        vec![
            Effect::SubPower { miner: MINER, amount: 10 },
            Effect::SubSpace { miner: MINER, amount: 10 },
            Effect::Deposit(Event::LeaseExpired { acc: BOB, size: 1000 }),
            Effect::Deposit(Event::LeaseExpired { acc: CAROL, size: 777 }),
        ]
    );
    assert_eq!(ledger.purchase_package(ALICE).unwrap().state, LeaseState::Frozen);
    assert_eq!(ledger.purchase_package(BOB), None);
    assert_eq!(ledger.purchase_package(CAROL), None);
    assert_eq!(ledger.user_hold_file_list(BOB).len(), 0);
    assert_eq!(ledger.file(&b"fine".to_vec()), None);
    assert_eq!(ledger.invalid_file(MINER).to_vec(), vec![b"fine".to_vec()]);
}

#[test]
fn expiry_passes_over_a_file_that_the_account_does_not_own() {
    let mut ledger = ledger();
    ledger.add_purchased_package(ALICE, 1000, 1, 1, 0).unwrap();
    ledger.add_purchased_package(BOB, 1000, 12, 1, 0).unwrap();
    ledger.upload_declaration(BOB, b"his".to_vec(), b"b".to_vec()).unwrap();
    store(&mut ledger, b"his", 10, BOB).unwrap();
    ledger.add_user_hold_fileslice(ALICE, b"his".to_vec(), 10).unwrap();
    let file = ledger.file(&b"his".to_vec());
    assert_eq!(
        ledger.on_initialize(DEADLINE),
        vec![Effect::Deposit(Event::LeaseExpired { acc: ALICE, size: 1000 })]
    );
    assert_eq!(ledger.purchase_package(ALICE), None);
    assert_eq!(ledger.user_hold_file_list(ALICE).len(), 0);
    // the file of Bob is as it was
    assert_eq!(ledger.file(&b"his".to_vec()), file);
    assert_eq!(ledger.user_hold_file_list(BOB).len(), 1);
    assert_eq!(ledger.purchase_package(BOB).unwrap().used_space, 10);
    assert_eq!(ledger.invalid_file(MINER).len(), 0);
}

#[test]
fn expiry_passes_over_a_file_whose_miner_has_a_full_purge_list() {
    let mut ledger = ledger();
    ledger.add_purchased_package(ALICE, 1000, 1, 1, 0).unwrap();
    ledger.upload_declaration(ALICE, b"stuck".to_vec(), b"a".to_vec()).unwrap();
    store(&mut ledger, b"stuck", 10, ALICE).unwrap();
    for i in 0..16u8 {
        ledger.add_invalid_file(MINER, vec![i]).unwrap();
    }
    let file = ledger.file(&b"stuck".to_vec());
    assert_eq!(
        ledger.on_initialize(DEADLINE),
        vec![Effect::Deposit(Event::LeaseExpired { acc: ALICE, size: 1000 })]
    );
    assert_eq!(ledger.purchase_package(ALICE), None);
    assert_eq!(ledger.user_hold_file_list(ALICE).len(), 0);
    assert_eq!(ledger.file(&b"stuck".to_vec()), file);
    assert_eq!(ledger.invalid_file(MINER).len(), 16);
}

#[test]
fn expiry_does_not_wait_for_the_books_of_the_lease() {
    let mut ledger = ledger();
    ledger.add_purchased_package(ALICE, 1000, 1, 1, 0).unwrap();
    ledger.upload_declaration(ALICE, b"h".to_vec(), b"a".to_vec()).unwrap();
    store(&mut ledger, b"h", 10, ALICE).unwrap();
    // the lease has less in use than the file takes
    ledger.debit_usage(ALICE, 5).unwrap();
    assert_eq!(ledger.duplicate().delete_file(ALICE, b"h".to_vec()), Err(Error::Overflow));
    assert_eq!(
        ledger.on_initialize(DEADLINE),
        vec![
            Effect::SubPower { miner: MINER, amount: 10 },
            Effect::SubSpace { miner: MINER, amount: 10 },
            Effect::Deposit(Event::LeaseExpired { acc: ALICE, size: 1000 }),
        ]
    );
    assert_eq!(ledger.purchase_package(ALICE), None);
    assert_eq!(ledger.file(&b"h".to_vec()), None);
}

#[test]
fn clear_expired_file_releases_one_account() {
    let mut ledger = ledger();
    ledger.add_purchased_package(ALICE, 1000, 1, 1, 0).unwrap();
    ledger.upload_declaration(ALICE, b"h1".to_vec(), b"a".to_vec()).unwrap();
    store(&mut ledger, b"h1", 10, ALICE).unwrap();
    ledger.upload_declaration(ALICE, b"h2".to_vec(), b"a".to_vec()).unwrap();
    store(&mut ledger, b"h2", 20, ALICE).unwrap();
    assert_eq!(
        ledger.clear_expired_file(ALICE),
        vec![
            Effect::SubPower { miner: MINER, amount: 10 },
            Effect::SubSpace { miner: MINER, amount: 10 },
            Effect::SubPower { miner: MINER, amount: 20 },
            Effect::SubSpace { miner: MINER, amount: 20 },
        ]
    );
    assert_eq!(ledger.user_hold_file_list(ALICE).len(), 0);
    assert_eq!(ledger.file(&b"h1".to_vec()), None);
    assert_eq!(ledger.file(&b"h2".to_vec()), None);
    // the lease is left to the sweep
    assert_eq!(ledger.purchase_package(ALICE).unwrap().used_space, 30);
    assert_eq!(ledger.invalid_file(MINER).to_vec(), vec![b"h1".to_vec(), b"h2".to_vec()]);
    // an account without files has nothing to release
    assert_eq!(ledger.clear_expired_file(BOB), vec![]);
}

#[test]
fn release_file_leaves_the_lease_alone() {
    let mut ledger = ledger();
    ledger.add_purchased_package(ALICE, 1000, 1, 1, 0).unwrap();
    ledger.upload_declaration(ALICE, b"h".to_vec(), b"a".to_vec()).unwrap();
    store(&mut ledger, b"h", 10, ALICE).unwrap();
    assert_eq!(ledger.release_file(&b"x".to_vec(), ALICE), Err(Error::FileNotFound));
    assert_eq!(ledger.release_file(&b"h".to_vec(), BOB), Err(Error::NotOwner));
    assert_eq!(
        ledger.release_file(&b"h".to_vec(), ALICE),
        Ok(vec![
            Effect::SubPower { miner: MINER, amount: 10 },
            Effect::SubSpace { miner: MINER, amount: 10 },
        ])
    );
    assert_eq!(ledger.file(&b"h".to_vec()), None);
    assert_eq!(ledger.user_hold_file_list(ALICE).len(), 0);
    assert_eq!(ledger.purchase_package(ALICE).unwrap().used_space, 10);
}
