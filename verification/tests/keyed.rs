use ethlambda::keyed::{KeyMap, KeySet};
use ethlambda::primitives::{RequestId, H256, PeerId};

#[test]
fn a_set_keeps_each_member_once() {
    let mut set = KeySet::new();
    assert!(set.is_empty());
    assert!(set.insert(RequestId(1)));
    assert!(set.insert(RequestId(2)));
    assert!(!set.insert(RequestId(1)));
    assert_eq!(set.len(), 2);
    assert_eq!(set.at(0), RequestId(1));
    assert!(set.remove(&RequestId(1)));
    assert!(!set.remove(&RequestId(1)));
    assert!(!set.contains(&RequestId(1)));
    assert!(set.contains(&RequestId(2)));
}

#[test]
fn a_map_keeps_the_latest_value_of_each_key() {
    let mut map = KeyMap::new();
    assert!(map.is_empty());
    map.insert(RequestId(1), "one");
    map.insert(RequestId(2), "two");
    map.insert(RequestId(1), "uno");
    assert_eq!(map.len(), 2);
    assert_eq!(map.get(&RequestId(1)), Some(&"uno"));
    assert_eq!(map.key_at(1), RequestId(2));
    assert_eq!(*map.value_at(1), "two");
    assert_eq!(map.remove(&RequestId(1)), Some("uno"));
    assert_eq!(map.remove(&RequestId(1)), None);
    assert!(!map.contains_key(&RequestId(1)));
    assert!(map.contains_key(&RequestId(2)));
}

#[test]
fn hashes_are_equal_by_their_bytes() {
    let mut bytes = [0u8; 32];
    assert_eq!(H256(bytes), H256::zero());
    bytes[31] = 1;
    assert_ne!(H256(bytes), H256::zero());
}

#[test]
fn peer_ids_are_short_keys_or_hashes() {
    assert!(PeerId::from_parts(0x12, &[7; 32]).is_some());
    assert!(PeerId::from_parts(0x12, &[7; 64]).is_some());
    assert!(PeerId::from_parts(0x12, &[7; 65]).is_none());
    assert!(PeerId::from_parts(0, &[7; 42]).is_some());
    assert!(PeerId::from_parts(0, &[7; 43]).is_none());
    assert!(PeerId::from_parts(0x13, &[7; 32]).is_none());
}

#[test]
fn peer_ids_are_told_apart_by_code_and_bytes() {
    let a = PeerId::from_parts(0x12, &[7; 32]).unwrap();
    assert_eq!(a, PeerId::from_parts(0x12, &[7; 32]).unwrap());
    assert_ne!(a, PeerId::from_parts(0x12, &[8; 32]).unwrap());
    assert_ne!(a, PeerId::from_parts(0x12, &[7; 33]).unwrap());
    assert_ne!(a, PeerId::from_parts(0, &[7; 32]).unwrap());
    assert_eq!(&a.digest[..32], &[7; 32]);
    assert_eq!(&a.digest[32..], &[0; 32]);
}
