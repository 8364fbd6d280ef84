use cess_pallets::file_bank::filler::{is_exit, is_positive};
use cess_pallets::file_bank::Pallet;
use cess_pallets::tee_worker;
use cess_pallets::types::{Config, Effect, Error, Event, FillerInfo};

const COORDINATOR: u64 = 50;
const MINER: u64 = 70;
const OTHER_MINER: u64 = 71;

fn ledger() -> Pallet {
    Pallet::new(Config { string_limit: 8, item_limit: 4, one_day: 28_800, pallet_id: *b"filebank" })
}

fn coordinators() -> tee_worker::Pallet {
    let mut registry = tee_worker::Pallet::new(4);
    registry
        .regist_scheduler(COORDINATOR, 51, [0; 32], [0; 53], [0; 294], Some(COORDINATOR), true)
        .unwrap();
    registry
}

fn filler(id: &[u8], size: u64) -> FillerInfo {
    FillerInfo {
        filler_size: size,
        block_num: 16,
        segment_size: 1024,
        miner_address: MINER,
        filler_id: id.to_vec(),
    }
}

fn positive() -> Vec<u8> {
    b"positive".to_vec()
}

#[test]
fn miner_states_are_read_as_text() {
    assert!(is_positive(&b"positive".to_vec()));
    assert!(!is_positive(&b"positivE".to_vec()));
    assert!(!is_positive(&b"positive ".to_vec()));
    assert!(!is_positive(&b"exit".to_vec()));
    assert!(!is_positive(&Vec::new()));
    assert!(is_exit(&b"exit".to_vec()));
    assert!(!is_exit(&b"exits".to_vec()));
    assert!(!is_exit(&b"positive".to_vec()));
}

#[test]
fn filler_batch_is_recorded_and_credited() {
    let mut ledger = ledger();
    let batch = vec![filler(b"b", 2), filler(b"a", 1), filler(b"c", 3)];
    let effects =
        ledger.upload_filler(&coordinators(), COORDINATOR, MINER, batch, &positive()).unwrap();
    assert_eq!(
        effects,
        vec![
            Effect::AddPower { miner: MINER, amount: 3 * 8 * 1024 * 1024 },
            Effect::Deposit(Event::FillerUpload { acc: COORDINATOR, file_size: 3 * 8 * 1024 * 1024 }),
        ]
    );
    assert_eq!(ledger.filler_map(MINER, &b"a".to_vec()), Some(filler(b"a", 1)));
    assert_eq!(ledger.filler_map(MINER, &b"b".to_vec()), Some(filler(b"b", 2)));
    assert_eq!(ledger.filler_map(MINER, &b"c".to_vec()), Some(filler(b"c", 3)));
    assert_eq!(ledger.filler_map(MINER, &b"d".to_vec()), None);
    assert_eq!(ledger.filler_map(OTHER_MINER, &b"a".to_vec()), None);
    assert_eq!(ledger.get_fillermap_length(), Ok(3));
}

#[test]
fn empty_batch_credits_nothing() {
    let mut ledger = ledger();
    let effects =
        ledger.upload_filler(&coordinators(), COORDINATOR, MINER, Vec::new(), &positive()).unwrap();
    assert_eq!(effects[0], Effect::AddPower { miner: MINER, amount: 0 });
    assert_eq!(ledger.get_fillermap_length(), Ok(0));
}

#[test]
fn batch_of_more_than_ten_is_refused() {
    let mut ledger = ledger();
    let eleven: Vec<FillerInfo> = (0u8..11).map(|i| filler(&[i], 1)).collect();
    // the length is checked before the coordinator
    assert_eq!(
        ledger.upload_filler(&coordinators(), 1, MINER, eleven, &positive()),
        Err(Error::LengthExceedsLimit)
    );
    let ten: Vec<FillerInfo> = (0u8..10).map(|i| filler(&[i], 1)).collect();
    assert!(ledger.upload_filler(&coordinators(), COORDINATOR, MINER, ten, &positive()).is_ok());
    assert_eq!(ledger.get_fillermap_length(), Ok(10));
}

#[test]
fn filler_upload_needs_a_coordinator_and_a_miner_in_good_standing() {
    let mut ledger = ledger();
    assert_eq!(
        ledger.upload_filler(&coordinators(), 1, MINER, vec![filler(b"a", 1)], &positive()),
        Err(Error::UnauthorizedCoordinator)
    );
    assert_eq!(
        ledger.upload_filler(&coordinators(), COORDINATOR, MINER, vec![filler(b"a", 1)], &b"exit".to_vec()),
        Err(Error::NotQualifiedMiner)
    );
    assert_eq!(ledger.get_fillermap_length(), Ok(0));
}

#[test]
fn filler_identifiers_are_unique_per_miner() {
    let mut ledger = ledger();
    ledger
        .upload_filler(&coordinators(), COORDINATOR, MINER, vec![filler(b"a", 1)], &positive())
        .unwrap();
    // taken already
    assert_eq!(
        ledger.upload_filler(
            &coordinators(),
            COORDINATOR,
            MINER,
            vec![filler(b"b", 2), filler(b"a", 9)],
            &positive()
        ),
        Err(Error::AlreadyExists)
    );
    // twice in one batch
    assert_eq!(
        ledger.upload_filler(
            &coordinators(),
            COORDINATOR,
            MINER,
            vec![filler(b"c", 2), filler(b"d", 3), filler(b"c", 4)],
            &positive()
        ),
        Err(Error::AlreadyExists)
    );
    // nothing of the refused batches was kept
    assert_eq!(ledger.get_fillermap_length(), Ok(1));
    assert_eq!(ledger.filler_map(MINER, &b"a".to_vec()), Some(filler(b"a", 1)));
    assert_eq!(ledger.filler_map(MINER, &b"b".to_vec()), None);
    assert_eq!(ledger.filler_map(MINER, &b"c".to_vec()), None);
    // the same identifier under another miner is fine
    assert!(ledger
        .upload_filler(&coordinators(), COORDINATOR, OTHER_MINER, vec![filler(b"a", 5)], &positive())
        .is_ok());
}

#[test]
fn delete_filler_removes_one() {
    let mut ledger = ledger();
    ledger
        .upload_filler(
            &coordinators(),
            COORDINATOR,
            MINER,
            vec![filler(b"a", 1), filler(b"b", 2)],
            &positive(),
        )
        .unwrap();
    assert_eq!(ledger.delete_filler(MINER, b"c".to_vec()), Err(Error::FileNotFound));
    assert_eq!(ledger.delete_filler(OTHER_MINER, b"a".to_vec()), Err(Error::FileNotFound));
    assert_eq!(ledger.delete_filler(MINER, vec![1; 9]), Err(Error::BoundedVecError));
    assert_eq!(ledger.delete_filler(MINER, b"a".to_vec()), Ok(()));
    assert_eq!(ledger.filler_map(MINER, &b"a".to_vec()), None);
    assert_eq!(ledger.filler_map(MINER, &b"b".to_vec()), Some(filler(b"b", 2)));
    assert_eq!(ledger.delete_filler(MINER, b"a".to_vec()), Err(Error::FileNotFound));
}

#[test]
fn clear_all_filler_needs_a_miner_that_left() {
    let mut ledger = ledger();
    ledger
        .upload_filler(
            &coordinators(),
            COORDINATOR,
            MINER,
            vec![filler(b"a", 1), filler(b"b", 2)],
            &positive(),
        )
        .unwrap();
    ledger
        .upload_filler(&coordinators(), COORDINATOR, OTHER_MINER, vec![filler(b"a", 1)], &positive())
        .unwrap();
    assert_eq!(ledger.clear_all_filler(MINER, &positive()), Err(Error::NotQualifiedMiner));
    assert_eq!(ledger.get_fillermap_length(), Ok(3));
    assert_eq!(ledger.clear_all_filler(MINER, &b"exit".to_vec()), Ok(()));
    assert_eq!(ledger.filler_map(MINER, &b"a".to_vec()), None);
    assert_eq!(ledger.filler_map(MINER, &b"b".to_vec()), None);
    assert_eq!(ledger.get_fillermap_length(), Ok(1));
    // a miner without fillers may clear them too
    assert_eq!(ledger.clear_all_filler(MINER, &b"exit".to_vec()), Ok(()));
}

#[test]
fn delete_miner_all_filler_spares_the_others() {
    let mut ledger = ledger();
    ledger
        .upload_filler(&coordinators(), COORDINATOR, MINER, vec![filler(b"a", 1)], &positive())
        .unwrap();
    ledger
        .upload_filler(&coordinators(), COORDINATOR, OTHER_MINER, vec![filler(b"a", 2)], &positive())
        .unwrap();
    ledger.delete_miner_all_filler(MINER);
    assert_eq!(ledger.filler_map(MINER, &b"a".to_vec()), None);
    assert_eq!(ledger.filler_map(OTHER_MINER, &b"a".to_vec()), Some(filler(b"a", 2)));
}

#[test]
fn filler_with_an_identifier_too_long_to_store_is_refused() {
    let mut ledger = ledger();
    let before = ledger.duplicate();
    // eight bytes are stored, nine are not
    let batch = vec![filler(b"a", 1), filler(b"123456789", 2)];
    assert_eq!(
        ledger.upload_filler(&coordinators(), COORDINATOR, MINER, batch, &positive()),
        Err(Error::Overflow)
    );
    assert_eq!(ledger, before);
    let batch = vec![filler(b"a", 1), filler(b"12345678", 2)];
    assert!(ledger.upload_filler(&coordinators(), COORDINATOR, MINER, batch, &positive()).is_ok());
    assert_eq!(ledger.filler_map(MINER, &b"12345678".to_vec()), Some(filler(b"12345678", 2)));
}

#[test]
fn batch_is_examined_before_the_miner_is_asked() {
    let ledger = ledger();
    let registry = coordinators();
    let eleven: Vec<FillerInfo> = (0..11u8).map(|i| filler(&[i], 1)).collect();
    let long = vec![filler(b"123456789", 1)];
    let fine = vec![filler(b"a", 1)];
    // the size of the batch comes first, then its identifiers, then the sender
    assert_eq!(ledger.check_filler_batch(&registry, 4, &eleven), Err(Error::LengthExceedsLimit));
    assert_eq!(ledger.check_filler_batch(&registry, 4, &long), Err(Error::Overflow));
    assert_eq!(
        ledger.check_filler_batch(&registry, 4, &fine),
        Err(Error::UnauthorizedCoordinator)
    );
    assert_eq!(ledger.check_filler_batch(&registry, COORDINATOR, &fine), Ok(()));
}
