use frost_ceremony::identifier::{bytes_equal, copy_bytes, Identifier};
use frost_ceremony::identifier_map::IdentifierMap;

fn small(n: u8) -> Identifier {
    let mut bytes = vec![0u8; 32];
    bytes[0] = n;
    Identifier::new(bytes)
}

#[test]
fn identifiers_are_ordered_as_the_numbers_they_encode() {
    assert!(small(1).precedes(&small(2)));
    assert!(!small(2).precedes(&small(1)));
    assert!(!small(7).precedes(&small(7)));
    // 255 comes before 256: the last byte that differs decides.
    let mut low = vec![0u8; 32];
    low[0] = 255;
    let mut high = vec![0u8; 32];
    high[1] = 1;
    assert!(Identifier::new(low.clone()).precedes(&Identifier::new(high.clone())));
    assert!(!Identifier::new(high).precedes(&Identifier::new(low)));
}

#[test]
fn a_shorter_encoding_precedes_one_it_is_the_end_of() {
    let short = Identifier::new(vec![5, 6]);
    let long = Identifier::new(vec![4, 5, 6]);
    assert!(short.precedes(&long));
    assert!(!long.precedes(&short));
    assert!(Identifier::new(vec![]).precedes(&short));
    assert!(!Identifier::new(vec![]).precedes(&Identifier::new(vec![])));
}

#[test]
fn same_compares_every_byte() {
    assert!(small(3).same(&small(3)));
    assert!(!small(3).same(&small(4)));
    assert!(!Identifier::new(vec![1]).same(&Identifier::new(vec![1, 0])));
    assert_eq!(small(9).duplicate(), small(9));
}

#[test]
fn byte_helpers_copy_and_compare() {
    let bytes = vec![1u8, 2, 3];
    assert_eq!(copy_bytes(&bytes), bytes);
    assert!(bytes_equal(&bytes, &vec![1, 2, 3]));
    assert!(!bytes_equal(&bytes, &vec![1, 2, 4]));
    assert!(!bytes_equal(&bytes, &vec![1, 2]));
    assert!(bytes_equal(&vec![], &vec![]));
}

#[test]
fn a_map_keeps_its_entries_in_identifier_order() {
    let mut map: IdentifierMap<Vec<u8>> = IdentifierMap::new();
    assert_eq!(map.len(), 0);
    assert!(map.insert(small(3), vec![30]));
    assert!(map.insert(small(1), vec![10]));
    assert!(map.insert(small(2), vec![20]));
    assert_eq!(map.len(), 3);
    assert_eq!(map.key_at(0), &small(1));
    assert_eq!(map.key_at(1), &small(2));
    assert_eq!(map.key_at(2), &small(3));
    assert_eq!(map.value_at(0), &vec![10]);
    assert_eq!(map.value_at(2), &vec![30]);
    assert_eq!(map.get(&small(2)), Some(&vec![20]));
    assert_eq!(map.get(&small(4)), None);
    assert!(map.contains_key(&small(3)));
    assert!(!map.contains_key(&small(0)));
}

#[test]
fn a_map_refuses_a_key_it_holds_and_stays_as_it_was() {
    let mut map: IdentifierMap<Vec<u8>> = IdentifierMap::new();
    assert!(map.insert(small(1), vec![10]));
    assert!(!map.insert(small(1), vec![99]));
    assert_eq!(map.len(), 1);
    assert_eq!(map.get(&small(1)), Some(&vec![10]));
}

#[test]
fn the_order_of_insertion_leaves_no_trace() {
    let mut forward: IdentifierMap<Vec<u8>> = IdentifierMap::new();
    let mut backward: IdentifierMap<Vec<u8>> = IdentifierMap::new();
    for n in 1..=5u8 {
        assert!(forward.insert(small(n), vec![n]));
    }
    for n in (1..=5u8).rev() {
        assert!(backward.insert(small(n), vec![n]));
    }
    assert_eq!(forward, backward);
}

#[test]
fn from_sorted_takes_entries_in_order_only() {
    let sorted = vec![(small(1), vec![1u8]), (small(2), vec![2u8])];
    let map = IdentifierMap::from_sorted(sorted).unwrap();
    assert_eq!(map.len(), 2);
    assert_eq!(map.key_at(1), &small(2));
    let unsorted = vec![(small(2), vec![2u8]), (small(1), vec![1u8])];
    assert!(IdentifierMap::from_sorted(unsorted).is_none());
    let repeated = vec![(small(1), vec![1u8]), (small(1), vec![2u8])];
    assert!(IdentifierMap::from_sorted(repeated).is_none());
    let empty: Vec<(Identifier, Vec<u8>)> = Vec::new();
    assert_eq!(IdentifierMap::from_sorted(empty).unwrap().len(), 0);
}

#[test]
fn the_order_is_the_order_of_the_scheme() {
    let names: [&[u8]; 6] = [b"alice", b"bob", b"carol", b"dave", b"erin", b"frank"];
    let ours: Vec<Identifier> = names
        .iter()
        .map(|name| Identifier::new(frost_ed25519::Identifier::derive(name).unwrap().serialize()))
        .collect();
    let theirs: Vec<frost_ed25519::Identifier> =
        names.iter().map(|name| frost_ed25519::Identifier::derive(name).unwrap()).collect();
    for i in 0..names.len() {
        for j in 0..names.len() {
            assert_eq!(ours[i].precedes(&ours[j]), theirs[i] < theirs[j]);
            assert_eq!(ours[i].same(&ours[j]), theirs[i] == theirs[j]);
        }
    }
    let wide: Vec<frost_ed448::Identifier> =
        names.iter().map(|name| frost_ed448::Identifier::derive(name).unwrap()).collect();
    for i in 0..names.len() {
        for j in 0..names.len() {
            let a = Identifier::new(wide[i].serialize());
            let b = Identifier::new(wide[j].serialize());
            assert_eq!(a.precedes(&b), wide[i] < wide[j]);
        }
    }
    for (low, high) in [(1u16, 2u16), (255, 256), (256, 257), (511, 1024), (65534, 65535)] {
        let a = frost_ed25519::Identifier::try_from(low).unwrap();
        let b = frost_ed25519::Identifier::try_from(high).unwrap();
        assert!(Identifier::new(a.serialize()).precedes(&Identifier::new(b.serialize())));
        assert!(!Identifier::new(b.serialize()).precedes(&Identifier::new(a.serialize())));
    }
}
