use cess_pallets::bytes::{bytes_eq, compare_bytes, copy_bytes, KeyOrder};
use cess_pallets::duplicate::Duplicate;
use cess_pallets::list::List;
use cess_pallets::ordered_map::{Key, OrderedMap};

#[test]
fn bytes_compare_lexicographically() {
    let cases: [(&[u8], &[u8], KeyOrder); 8] = [
        (b"", b"", KeyOrder::Same),
        (b"", b"a", KeyOrder::Before),
        (b"a", b"", KeyOrder::After),
        (b"abc", b"abc", KeyOrder::Same),
        (b"abc", b"abd", KeyOrder::Before),
        (b"abd", b"abc", KeyOrder::After),
        (b"ab", b"abc", KeyOrder::Before),
        (b"b", b"abc", KeyOrder::After),
    ];
    for (a, b, expected) in cases {
        assert_eq!(compare_bytes(&a.to_vec(), &b.to_vec()), expected, "{:?} {:?}", a, b);
        assert_eq!(bytes_eq(&a.to_vec(), &b.to_vec()), expected == KeyOrder::Same);
    }
    assert_eq!(compare_bytes(&vec![0xff], &vec![0x00, 0x01]), KeyOrder::After);
}

#[test]
fn bytes_are_copied() {
    assert_eq!(copy_bytes(&b"hello".to_vec()), b"hello".to_vec());
    assert_eq!(copy_bytes(&Vec::new()), Vec::<u8>::new());
}

#[test]
fn numbers_compare_by_size() {
    assert_eq!(Key::compare(&1u64, &2u64), KeyOrder::Before);
    assert_eq!(Key::compare(&2u64, &2u64), KeyOrder::Same);
    assert_eq!(Key::compare(&u64::MAX, &0u64), KeyOrder::After);
}

#[test]
fn map_is_scanned_in_key_order() {
    let mut map: OrderedMap<u64, u64> = OrderedMap::new();
    for key in [5u64, 1, 9, 3, 7] {
        map.insert(key, key * 10);
    }
    assert_eq!(map.len(), 5);
    let keys: Vec<u64> = (0..map.len()).map(|i| *map.key_at(i)).collect();
    let values: Vec<u64> = (0..map.len()).map(|i| *map.value_at(i)).collect();
    assert_eq!(keys, vec![1, 3, 5, 7, 9]);
    assert_eq!(values, vec![10, 30, 50, 70, 90]);
}

#[test]
fn map_order_does_not_depend_on_the_order_of_insertion() {
    let mut one: OrderedMap<Vec<u8>, u64> = OrderedMap::new();
    let mut other: OrderedMap<Vec<u8>, u64> = OrderedMap::new();
    let entries: [(&[u8], u64); 4] = [(b"b", 2), (b"ab", 12), (b"a", 1), (b"", 0)];
    for (k, v) in entries {
        one.insert(k.to_vec(), v);
    }
    for (k, v) in entries.iter().rev() {
        other.insert(k.to_vec(), *v);
    }
    assert_eq!(one, other);
    let keys: Vec<Vec<u8>> = (0..one.len()).map(|i| one.key_at(i).clone()).collect();
    assert_eq!(keys, vec![b"".to_vec(), b"a".to_vec(), b"ab".to_vec(), b"b".to_vec()]);
}

#[test]
fn map_insert_replaces_and_remove_returns() {
    let mut map: OrderedMap<u64, u64> = OrderedMap::new();
    map.insert(4, 40);
    map.insert(4, 41);
    assert_eq!(map.len(), 1);
    assert_eq!(map.get(&4), Some(&41));
    assert_eq!(map.get(&5), None);
    assert!(map.contains_key(&4));
    assert!(!map.contains_key(&3));
    assert_eq!(map.find(&4), Ok(0));
    assert_eq!(map.find(&3), Err(0));
    assert_eq!(map.find(&5), Err(1));
    assert_eq!(map.remove(&5), None);
    assert_eq!(map.remove(&4), Some(41));
    assert_eq!(map.remove(&4), None);
    assert_eq!(map.len(), 0);
}

#[test]
fn map_remove_at_takes_the_entry_in_scan_order() {
    let mut map: OrderedMap<u64, u64> = OrderedMap::new();
    for key in [3u64, 1, 2] {
        map.insert(key, key + 100);
    }
    assert_eq!(map.remove_at(1), (2, 102));
    assert_eq!(map.remove_at(0), (1, 101));
    assert_eq!(map.len(), 1);
    assert_eq!(*map.key_at(0), 3);
}

#[test]
fn map_copy_is_equal_and_independent() {
    let mut map: OrderedMap<u64, Vec<u8>> = OrderedMap::new();
    map.insert(1, b"one".to_vec());
    let copy = map.duplicate();
    map.insert(2, b"two".to_vec());
    assert_eq!(copy.len(), 1);
    assert_eq!(copy.get(&1), Some(&b"one".to_vec()));
    assert_eq!(copy.get(&2), None);
}

#[test]
fn list_keeps_the_order_of_its_items() {
    let mut list: List<u64> = List::new();
    for x in [4u64, 2, 4, 8] {
        list.push(x);
    }
    assert_eq!(list.len(), 4);
    assert_eq!(*list.get(1), 2);
    assert_eq!(list.position(&4), Some(0));
    assert_eq!(list.position(&8), Some(3));
    assert_eq!(list.position(&5), None);
    assert!(list.contains(&2));
    assert!(!list.contains(&3));
    assert_eq!(list.remove(1), 2);
    assert_eq!(list.to_vec(), vec![4, 4, 8]);
    list.retain_ne(&4);
    assert_eq!(list.to_vec(), vec![8]);
    list.retain_ne(&4);
    assert_eq!(list.to_vec(), vec![8]);
    list.retain_ne(&8);
    assert_eq!(list.len(), 0);
}

#[test]
fn list_of_bytes_drops_equal_strings_only() {
    let mut list: List<Vec<u8>> = List::new();
    for x in [&b"ab"[..], b"a", b"ab", b"abc"] {
        list.push(x.to_vec());
    }
    list.retain_ne(&b"ab".to_vec());
    assert_eq!(list.to_vec(), vec![b"a".to_vec(), b"abc".to_vec()]);
    assert_eq!(list.duplicate(), list);
}
