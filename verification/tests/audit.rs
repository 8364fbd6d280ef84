use cess_pallets::file_bank::audit::RandomFileList;
use cess_pallets::file_bank::Pallet;
use cess_pallets::ordered_map::OrderedMap;
use cess_pallets::tee_worker;
use cess_pallets::types::{Config, Error, FillerInfo, MinerCapacity};

const ALICE: u64 = 1;
const COORDINATOR: u64 = 50;
const MINER: u64 = 70;
const OTHER_MINER: u64 = 71;

fn ledger() -> Pallet {
    Pallet::new(Config { string_limit: 16, item_limit: 64, one_day: 28_800, pallet_id: *b"filebank" })
}

fn coordinators() -> tee_worker::Pallet {
    let mut registry = tee_worker::Pallet::new(4);
    registry
        .regist_scheduler(COORDINATOR, 51, [0; 32], [0; 53], [0; 294], Some(COORDINATOR), true)
        .unwrap();
    registry
}

fn filler(miner: u64, id: &[u8], size: u64, shards: u32) -> FillerInfo {
    FillerInfo {
        filler_size: size,
        block_num: shards,
        segment_size: 1024,
        miner_address: miner,
        filler_id: id.to_vec(),
    }
}

fn add_fillers(ledger: &mut Pallet, miner: u64, batch: Vec<FillerInfo>) {
    ledger.upload_filler(&coordinators(), COORDINATOR, miner, batch, &b"positive".to_vec()).unwrap();
}

fn add_file(ledger: &mut Pallet, hash: &[u8], size: u64, miner: u64, miner_id: u64) {
    ledger.upload_declaration(ALICE, hash.to_vec(), b"name".to_vec()).unwrap();
    ledger
        .upload(
            &coordinators(),
            COORDINATOR,
            hash.to_vec(),
            size,
            4,
            512,
            2048,
            miner,
            miner_id,
            b"ip".to_vec(),
            ALICE,
            MinerCapacity { power: 1 << 40, space: 0 },
        )
        .unwrap();
}

fn directory(entries: &[(u64, u64)]) -> OrderedMap<u64, u64> {
    let mut ids = OrderedMap::new();
    for (miner, id) in entries {
        ids.insert(*miner, *id);
    }
    ids
}

fn counter_of(subject: &[u8]) -> u32 {
    assert_eq!(subject.len(), 12);
    assert_eq!(&subject[..8], b"filebank");
    u32::from_le_bytes([subject[8], subject[9], subject[10], subject[11]])
}

fn scripted(table: &[(u32, u32)]) -> impl Fn(Vec<u8>) -> Vec<u8> {
    let table = table.to_vec();
    move |subject: Vec<u8>| {
        let n = counter_of(&subject);
        match table.iter().find(|(k, _)| *k == n) {
            Some((_, v)) => v.to_le_bytes().to_vec(),
            None => panic!("no draw was expected for the counter {}", n),
        }
    }
}

fn mixed(subject: Vec<u8>) -> Vec<u8> {
    let n = counter_of(&subject);
    let x = n.wrapping_mul(2_654_435_761).rotate_left(13) ^ 0x9E37_79B9;
    (x.wrapping_mul(0x85EB_CA6B) ^ (x >> 16)).to_le_bytes().to_vec()
}

fn untouched(_: Vec<u8>) -> Vec<u8> {
    panic!("no draw was expected")
}

#[test]
fn empty_ledger_is_not_challenged() {
    let ledger = ledger();
    assert_eq!(ledger.get_random_challenge_data(5, &directory(&[]), &untouched), Ok(vec![]));
    assert_eq!(ledger.get_random_filler(5, &untouched), Ok(vec![]));
    assert_eq!(ledger.get_random_file(5, &untouched), Ok(vec![]));
    assert_eq!(ledger.get_fillermap_length(), Ok(0));
    assert_eq!(ledger.get_file_map_length(), Ok(0));
}

#[test]
fn declared_files_are_not_challenged() {
    let mut ledger = ledger();
    ledger.upload_declaration(ALICE, b"a".to_vec(), b"name".to_vec()).unwrap();
    ledger.upload_declaration(ALICE, b"b".to_vec(), b"name".to_vec()).unwrap();
    assert_eq!(ledger.get_file_map_length(), Ok(0));
    assert_eq!(ledger.get_random_challenge_data(5, &directory(&[]), &untouched), Ok(vec![]));
}

#[test]
fn pools_are_counted_over_all_miners() {
    let mut ledger = ledger();
    ledger.add_purchased_package(ALICE, 1 << 30, 1, 2, 0).unwrap();
    add_file(&mut ledger, b"a1", 100, MINER, 7);
    add_file(&mut ledger, b"a3", 100, OTHER_MINER, 8);
    ledger.upload_declaration(ALICE, b"a2".to_vec(), b"name".to_vec()).unwrap();
    add_fillers(&mut ledger, OTHER_MINER, vec![filler(OTHER_MINER, b"g1", 1, 4)]);
    add_fillers(&mut ledger, MINER, vec![filler(MINER, b"f2", 1, 4), filler(MINER, b"f1", 1, 4)]);
    assert_eq!(ledger.get_fillermap_length(), Ok(3));
    assert_eq!(ledger.get_file_map_length(), Ok(2));
}

#[test]
fn round_challenges_a_filler_and_a_file() {
    let mut ledger = ledger();
    ledger.add_purchased_package(ALICE, 1 << 30, 1, 2, 0).unwrap();
    add_file(&mut ledger, b"a1", 4096, MINER, 7);
    ledger.upload_declaration(ALICE, b"a2".to_vec(), b"name".to_vec()).unwrap();
    add_file(&mut ledger, b"a3", 100, OTHER_MINER, 8);
    add_fillers(&mut ledger, OTHER_MINER, vec![filler(OTHER_MINER, b"g1", 11, 4)]);
    add_fillers(
        &mut ledger,
        MINER,
        vec![filler(MINER, b"f3", 33, 4), filler(MINER, b"f1", 31, 4), filler(MINER, b"f2", 32, 4)],
    );
    // The pool of fillers is f1, f2, f3 of the miner 70 and g1 of the miner 71:
    // one of four is drawn, 6 % 4 = 2 is f3. The pool of active files is a1, a3:
    // one of two is drawn, 6 % 2 = 0 is a1. Of the 4 shards of each two are
    // drawn: 6 % 4 = 2 and 9 % 4 = 1.
    let random = scripted(&[(1001, 6), (1002, 9)]);
    let ids = directory(&[(MINER, 7), (OTHER_MINER, 8)]);
    assert_eq!(
        ledger.get_random_challenge_data(1000, &ids, &random),
        Ok(vec![
            (MINER, b"f3".to_vec(), vec![1, 2], 33, 1, 1024),
            (MINER, b"a1".to_vec(), vec![1, 2], 4096, 2, 2048),
        ])
    );
    assert_eq!(ledger.get_random_filler(1000, &random), Ok(vec![(MINER, filler(MINER, b"f3", 33, 4))]));
    let files = ledger.get_random_file(1000, &random).unwrap();
    assert_eq!(files.len(), 1);
    assert_eq!(files[0].0, b"a1".to_vec());
    assert_eq!(files[0].1.file_size, 4096);
}

#[test]
fn stale_assignments_are_skipped() {
    let mut ledger = ledger();
    ledger.add_purchased_package(ALICE, 1 << 30, 1, 2, 0).unwrap();
    add_file(&mut ledger, b"a1", 4096, MINER, 7);
    let random = scripted(&[(1001, 6), (1002, 9)]);
    // the miner has another identifier by now
    assert_eq!(ledger.get_random_challenge_data(1000, &directory(&[(MINER, 8)]), &random), Ok(vec![]));
    // the miner is gone
    assert_eq!(
        ledger.get_random_challenge_data(1000, &directory(&[(OTHER_MINER, 7)]), &random),
        Ok(vec![])
    );
    // the assignment stands
    assert_eq!(
        ledger.get_random_challenge_data(1000, &directory(&[(MINER, 7)]), &random),
        Ok(vec![(MINER, b"a1".to_vec(), vec![1, 2], 4096, 2, 2048)])
    );
}

#[test]
fn fillers_of_one_shard_fail_the_round() {
    let mut ledger = ledger();
    add_fillers(&mut ledger, MINER, vec![filler(MINER, b"f1", 1, 1)]);
    assert_eq!(
        ledger.get_random_challenge_data(1000, &directory(&[]), &scripted(&[(1001, 6)])),
        Err(Error::Overflow)
    );
}

#[test]
fn objects_without_shards_are_challenged_on_none() {
    let mut ledger = ledger();
    add_fillers(&mut ledger, MINER, vec![filler(MINER, b"f1", 5, 0)]);
    assert_eq!(
        ledger.get_random_challenge_data(1000, &directory(&[]), &scripted(&[(1001, 6)])),
        Ok(vec![(MINER, b"f1".to_vec(), vec![], 5, 1, 1024)])
    );
}

#[test]
fn round_runs_out_with_the_counter() {
    let mut ledger = ledger();
    add_fillers(&mut ledger, MINER, vec![filler(MINER, b"f1", 5, 4)]);
    assert_eq!(
        ledger.get_random_challenge_data(u32::MAX, &directory(&[]), &untouched),
        Err(Error::Overflow)
    );
}

#[test]
fn round_is_the_same_for_the_same_state_and_tick() {
    let build = |order: &[u8]| {
        let mut ledger = ledger();
        ledger.add_purchased_package(ALICE, 1 << 30, 1, 2, 0).unwrap();
        for i in order {
            add_file(&mut ledger, &[b'h', *i], 1000 + *i as u64, MINER + (*i % 3) as u64, 7);
        }
        for i in order {
            let miner = MINER + (*i % 3) as u64;
            add_fillers(&mut ledger, miner, vec![filler(miner, &[b'f', *i], *i as u64, 20 + *i as u32)]);
        }
        ledger
    };
    let forward: Vec<u8> = (0..40).collect();
    let backward: Vec<u8> = (0..40).rev().collect();
    let one = build(&forward);
    let other = build(&backward);
    let ids = directory(&[(MINER, 7), (MINER + 1, 7), (MINER + 2, 7)]);
    let first = one.get_random_challenge_data(123, &ids, &mixed).unwrap();
    // 40 fillers give 2 challenges, 40 files give 6
    assert_eq!(first.len(), 8);
    assert_eq!(first.iter().filter(|c| c.4 == 1).count(), 2);
    assert_eq!(one.get_random_challenge_data(123, &ids, &mixed).unwrap(), first);
    assert_eq!(other.get_random_challenge_data(123, &ids, &mixed).unwrap(), first);
    assert_eq!(one.duplicate().get_random_challenge_data(123, &ids, &mixed).unwrap(), first);
    assert_ne!(one.get_random_challenge_data(124, &ids, &mixed).unwrap(), first);
}

#[test]
fn numbers_are_drawn_under_the_tag_of_the_ledger() {
    let ledger = ledger();
    let random = |subject: Vec<u8>| {
        assert_eq!(subject, vec![b'f', b'i', b'l', b'e', b'b', b'a', b'n', b'k', 9, 0, 0, 0]);
        vec![5, 1, 0, 0]
    };
    assert_eq!(ledger.generate_random_number(9, &random), Ok(261));
    let other = Pallet::new(Config { string_limit: 1, item_limit: 1, one_day: 1, pallet_id: [7; 8] });
    let random = |subject: Vec<u8>| {
        assert_eq!(subject, vec![7, 7, 7, 7, 7, 7, 7, 7, 9, 0, 0, 0]);
        vec![1, 0, 0, 0]
    };
    assert_eq!(other.generate_random_number(9, &random), Ok(1));
}

#[test]
fn auditor_is_served_by_the_ledger() {
    fn serve<L: RandomFileList>(ledger: &mut L) -> (bool, Result<(), Error>, Result<(), Error>) {
        let planted = ledger.add_invalid_file(MINER, b"bad".to_vec());
        ledger.delete_miner_all_filler(OTHER_MINER);
        (ledger.contains_member(ALICE), planted, ledger.delete_filler(MINER, b"f1".to_vec()))
    }
    let mut ledger = ledger();
    ledger.add_member(ALICE).unwrap();
    ledger.add_purchased_package(ALICE, 1 << 30, 1, 2, 0).unwrap();
    add_file(&mut ledger, b"a1", 4096, MINER, 7);
    add_fillers(&mut ledger, MINER, vec![filler(MINER, b"f1", 1, 4), filler(MINER, b"f2", 2, 4)]);
    add_fillers(&mut ledger, OTHER_MINER, vec![filler(OTHER_MINER, b"g1", 1, 4)]);
    assert_eq!(serve(&mut ledger), (true, Ok(()), Ok(())));
    assert_eq!(ledger.invalid_file(MINER).to_vec(), vec![b"bad".to_vec()]);
    assert_eq!(ledger.get_fillermap_length(), Ok(1));
    assert_eq!(RandomFileList::clear_file(&mut ledger, b"none".to_vec()), Err(Error::FileNotFound));
    let ids = directory(&[(MINER, 7)]);
    let random = scripted(&[(1001, 6), (1002, 9)]);
    assert_eq!(
        RandomFileList::get_random_challenge_data(&ledger, 1000, &ids, &random),
        ledger.get_random_challenge_data(1000, &ids, &random)
    );
    assert_eq!(
        ledger.get_random_challenge_data(1000, &ids, &random),
        Ok(vec![
            (MINER, b"f2".to_vec(), vec![1, 2], 2, 1, 1024),
            (MINER, b"a1".to_vec(), vec![1, 2], 4096, 2, 2048),
        ])
    );
    assert_eq!(RandomFileList::clear_file(&mut ledger, b"a1".to_vec()), Ok(()));
    assert_eq!(ledger.get_file_map_length(), Ok(0));
}

#[test]
fn filler_is_challenged_on_the_miner_that_holds_it() {
    let mut ledger = ledger();
    // the record names another miner than the one it is stored under
    add_fillers(&mut ledger, MINER, vec![filler(OTHER_MINER, b"f1", 5, 4)]);
    let random = scripted(&[(1001, 6), (1002, 9)]);
    assert_eq!(
        ledger.get_random_challenge_data(1000, &directory(&[]), &random),
        Ok(vec![(MINER, b"f1".to_vec(), vec![1, 2], 5, 1, 1024)])
    );
    assert_eq!(
        ledger.get_random_filler(1000, &random),
        Ok(vec![(MINER, filler(OTHER_MINER, b"f1", 5, 4))])
    );
}

#[test]
fn fillers_of_two_miners_may_share_an_identifier() {
    let mut ledger = ledger();
    add_fillers(&mut ledger, OTHER_MINER, vec![filler(OTHER_MINER, b"f1", 2, 4)]);
    add_fillers(&mut ledger, MINER, vec![filler(MINER, b"f1", 1, 4)]);
    // of the two fillers one is drawn: 6 % 2 = 0 is the filler of the first miner,
    // 7 % 2 = 1 that of the second; the shards are drawn from the same numbers
    assert_eq!(
        ledger.get_random_challenge_data(1000, &directory(&[]), &scripted(&[(1001, 6), (1002, 9)])),
        Ok(vec![(MINER, b"f1".to_vec(), vec![1, 2], 1, 1, 1024)])
    );
    assert_eq!(
        ledger.get_random_challenge_data(1000, &directory(&[]), &scripted(&[(1001, 7), (1002, 9)])),
        Ok(vec![(OTHER_MINER, b"f1".to_vec(), vec![1, 3], 2, 1, 1024)])
    );
}
