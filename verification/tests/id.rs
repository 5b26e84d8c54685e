use std::cmp::Ordering;
use std::collections::BTreeMap;
use std::collections::HashMap;
use dovahkiin::types::Id;

#[test]
fn compare() {
    let id_1 = Id::new(1, 2);
    let id_2 = Id::new(2, 2);
    let id_3 = Id::new(1, 2);
    let id_4 = Id::new(1, 3);
    assert_eq!(id_1.cmp(&id_2), Ordering::Less);
    assert!(id_1 < id_2);
    assert_eq!(id_1, id_3);
    assert!(id_4 > id_1);
}

#[test]
fn with_btree() {
    let mut map = BTreeMap::new();
    let id_1 = Id::new(1, 2);
    let id_2 = Id::new(2, 2);
    let id_3 = Id::new(1, 3);
    let id_4 = Id::new(1, 5);
    let id_5 = Id::new(3, 5);

    assert!(map.insert(id_1, 1).is_none());
    assert!(map.insert(id_2, 2).is_none());
    assert!(map.insert(id_3, 3).is_none());
    assert!(map.insert(id_4, 4).is_none());
    assert!(map.insert(id_5, 5).is_none());

    assert_eq!(map.get(&id_1), Some(&1));
    assert_eq!(map.get(&id_2), Some(&2));
    assert_eq!(map.get(&id_3), Some(&3));
    assert_eq!(map.get(&id_4), Some(&4));
    assert_eq!(map.get(&id_5), Some(&5));
}

#[test]
fn with_hashmap() {
    let mut map = HashMap::new();
    let id_1 = Id::new(1, 2);
    let id_2 = Id::new(2, 2);
    let id_3 = Id::new(1, 3);
    let id_4 = Id::new(1, 5);
    let id_5 = Id::new(3, 5);

    assert!(map.insert(id_1, 1).is_none());
    assert!(map.insert(id_2, 2).is_none());
    assert!(map.insert(id_3, 3).is_none());
    assert!(map.insert(id_4, 4).is_none());
    assert!(map.insert(id_5, 5).is_none());

    assert_eq!(map.get(&id_1), Some(&1));
    assert_eq!(map.get(&id_2), Some(&2));
    assert_eq!(map.get(&id_3), Some(&3));
    assert_eq!(map.get(&id_4), Some(&4));
    assert_eq!(map.get(&id_5), Some(&5));
}
