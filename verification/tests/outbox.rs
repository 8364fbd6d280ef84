use cess_pallets::file_bank::Pallet;
use cess_pallets::types::{Config, Effect, Error, Event};

const MINER: u64 = 70;
const OTHER_MINER: u64 = 71;

fn ledger() -> Pallet {
    Pallet::new(Config { string_limit: 3, item_limit: 4, one_day: 28_800, pallet_id: *b"filebank" })
}

#[test]
fn invalid_files_queue_up_per_miner() {
    let mut ledger = ledger();
    ledger.add_invalid_file(MINER, b"a".to_vec()).unwrap();
    ledger.add_invalid_file(OTHER_MINER, b"x".to_vec()).unwrap();
    ledger.add_invalid_file(MINER, b"b".to_vec()).unwrap();
    assert_eq!(ledger.invalid_file(MINER).to_vec(), vec![b"a".to_vec(), b"b".to_vec()]);
    assert_eq!(ledger.invalid_file(OTHER_MINER).to_vec(), vec![b"x".to_vec()]);
}

#[test]
fn invalid_file_list_is_bounded() {
    let mut ledger = ledger();
    assert_eq!(ledger.add_invalid_file(MINER, b"long".to_vec()), Err(Error::BoundedVecError));
    for hash in [b"a", b"b", b"c"] {
        ledger.add_invalid_file(MINER, hash.to_vec()).unwrap();
    }
    assert_eq!(ledger.add_invalid_file(MINER, b"d".to_vec()), Err(Error::StorageLimitReached));
    // the length is checked first
    assert_eq!(ledger.add_invalid_file(MINER, b"long".to_vec()), Err(Error::BoundedVecError));
    assert_eq!(ledger.invalid_file(MINER).len(), 3);
    assert!(ledger.add_invalid_file(OTHER_MINER, b"d".to_vec()).is_ok());
}

#[test]
fn clearing_drops_every_entry_with_the_hash() {
    let mut ledger = ledger();
    for hash in [b"a", b"b", b"a"] {
        ledger.add_invalid_file(MINER, hash.to_vec()).unwrap();
    }
    let effects = ledger.clear_invalid_file(MINER, b"a".to_vec());
    assert_eq!(
        effects,
        vec![Effect::Deposit(Event::ClearInvalidFile { acc: MINER, file_hash: b"a".to_vec() })]
    );
    assert_eq!(ledger.invalid_file(MINER).to_vec(), vec![b"b".to_vec()]);
}

#[test]
fn clearing_is_idempotent() {
    let mut ledger = ledger();
    ledger.add_invalid_file(MINER, b"a".to_vec()).unwrap();
    ledger.add_invalid_file(MINER, b"b".to_vec()).unwrap();
    ledger.clear_invalid_file(MINER, b"a".to_vec());
    let once = ledger.invalid_file(MINER).to_vec();
    ledger.clear_invalid_file(MINER, b"a".to_vec());
    assert_eq!(ledger.invalid_file(MINER).to_vec(), once);
    // unknown hashes and overlong hashes change nothing
    ledger.clear_invalid_file(MINER, b"zz".to_vec());
    ledger.clear_invalid_file(MINER, b"much too long".to_vec());
    ledger.clear_invalid_file(OTHER_MINER, b"b".to_vec());
    assert_eq!(ledger.invalid_file(MINER).to_vec(), once);
    assert_eq!(ledger.invalid_file(OTHER_MINER).len(), 0);
}

#[test]
fn members_are_a_bounded_set() {
    let mut ledger = ledger();
    assert!(!ledger.contains_member(1));
    assert_eq!(ledger.add_member(1), Ok(()));
    assert_eq!(ledger.add_member(1), Err(Error::AlreadyExists));
    assert_eq!(ledger.add_member(2), Ok(()));
    assert_eq!(ledger.add_member(3), Ok(()));
    assert_eq!(ledger.add_member(4), Err(Error::StorageLimitReached));
    // a member is reported as such before the limit
    assert_eq!(ledger.add_member(2), Err(Error::AlreadyExists));
    assert_eq!(ledger.members().to_vec(), vec![1, 2, 3]);
    assert!(ledger.contains_member(2));
}

#[test]
fn deleting_a_member_keeps_the_order_of_the_others() {
    let mut ledger = ledger();
    for acc in [5, 3, 9] {
        ledger.add_member(acc).unwrap();
    }
    ledger.del_member(3);
    assert_eq!(ledger.members().to_vec(), vec![5, 9]);
    ledger.del_member(3);
    assert_eq!(ledger.members().to_vec(), vec![5, 9]);
    assert!(!ledger.contains_member(3));
    assert_eq!(ledger.add_member(3), Ok(()));
    assert_eq!(ledger.members().to_vec(), vec![5, 9, 3]);
}
