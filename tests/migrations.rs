use kitties::migrations::{
    decode_kitty, decode_v0, decode_v1, encode_kitty, encode_v0, encode_v1, upgrade_record,
    v1, v2, KittyVersion0, KittyVersion1, RecordStore, Step,
};
use kitties::pallet::Kitty;

fn dna(seed: u8) -> [u8; 16] {
    let mut d = [0u8; 16];
    for (i, b) in d.iter_mut().enumerate() {
        *b = seed.wrapping_mul(31).wrapping_add(i as u8);
    }
    d
}

fn store_of(records: &[(u32, Vec<u8>)]) -> RecordStore {
    let mut store = RecordStore::new();
    for (id, bytes) in records {
        store.insert(*id, bytes.clone());
    }
    store
}

#[test]
fn v0_record_to_v1_gets_default_name() {
    let mut store = store_of(&[(0, encode_v0(&KittyVersion0(dna(1))))]);
    assert!(v1::migrate(&mut store, 0, 1));
    let bytes = store.get(0).unwrap();
    assert_eq!(bytes.len(), 20);
    assert_eq!(decode_v1(&bytes), Some(KittyVersion1 { dna: dna(1), name: *b"abcd" }));
}

#[test]
fn v0_record_to_v2_gets_default_name() {
    let mut store = store_of(&[(0, encode_v0(&KittyVersion0(dna(1))))]);
    assert!(v2::migrate(&mut store, 0, 2));
    let bytes = store.get(0).unwrap();
    assert_eq!(bytes.len(), 24);
    assert_eq!(decode_kitty(&bytes), Some(Kitty { dna: dna(1), name: *b"abcdefgh" }));
}

#[test]
fn v1_record_to_v2_pads_name_with_zeros() {
    let old = KittyVersion1 { dna: dna(2), name: *b"wxyz" };
    let mut store = store_of(&[(7, encode_v1(&old))]);
    assert!(v2::migrate(&mut store, 1, 2));
    let bytes = store.get(7).unwrap();
    assert_eq!(decode_kitty(&bytes), Some(Kitty { dna: dna(2), name: *b"wxyz\0\0\0\0" }));
}

#[test]
fn migration_keeps_every_identifier() {
    let mut store = store_of(&[
        (0, encode_v0(&KittyVersion0(dna(0)))),
        (1, encode_v0(&KittyVersion0(dna(1)))),
        (5, encode_v0(&KittyVersion0(dna(5)))),
    ]);
    assert!(v2::migrate(&mut store, 0, 2));
    for id in [0u32, 1, 5] {
        let kitty = decode_kitty(&store.get(id).unwrap()).unwrap();
        assert_eq!(kitty.dna, dna(id as u8));
        assert_eq!(kitty.name, *b"abcdefgh");
    }
    assert_eq!(store.get(2), None);
}

#[test]
fn migration_twice_equals_once() {
    let records = [
        (0u32, encode_v0(&KittyVersion0(dna(3)))),
        (1u32, encode_v0(&KittyVersion0(dna(4)))),
        (2u32, vec![1, 2, 3]),
    ];
    for (on_chain, current) in [(0u16, 1u16), (0, 2)] {
        let mut once = store_of(&records);
        let mut twice = store_of(&records);
        if current == 1 {
            v1::migrate(&mut once, on_chain, current);
            v1::migrate(&mut twice, on_chain, current);
            v1::migrate(&mut twice, on_chain, current);
        } else {
            v2::migrate(&mut once, on_chain, current);
            v2::migrate(&mut twice, on_chain, current);
            v2::migrate(&mut twice, on_chain, current);
        }
        for id in 0u32..3 {
            assert_eq!(once.get(id), twice.get(id));
        }
    }
    let v1_records = [(4u32, encode_v1(&KittyVersion1 { dna: dna(9), name: *b"name" }))];
    let mut once = store_of(&v1_records);
    let mut twice = store_of(&v1_records);
    v2::migrate(&mut once, 1, 2);
    v2::migrate(&mut twice, 1, 2);
    v2::migrate(&mut twice, 1, 2);
    assert_eq!(once.get(4), twice.get(4));
}

#[test]
fn migration_is_gated_by_versions() {
    let original = encode_v0(&KittyVersion0(dna(6)));
    let mut store = store_of(&[(0, original.clone())]);
    assert!(!v1::migrate(&mut store, 1, 1));
    assert!(!v1::migrate(&mut store, 0, 2));
    assert!(!v2::migrate(&mut store, 2, 2));
    assert!(!v2::migrate(&mut store, 0, 1));
    assert_eq!(store.get(0), Some(original));
}

#[test]
fn record_too_short_for_old_layout_is_dropped() {
    let mut store = store_of(&[(0, vec![1u8; 15]), (1, encode_v0(&KittyVersion0(dna(1))))]);
    assert!(v1::migrate(&mut store, 0, 1));
    assert_eq!(store.get(0), None);
    assert!(store.get(1).is_some());
}

#[test]
fn record_codecs_round_trip() {
    let kitty = Kitty { dna: dna(8), name: *b"12345678" };
    let bytes = encode_kitty(&kitty);
    let mut expected = dna(8).to_vec();
    expected.extend_from_slice(b"12345678");
    assert_eq!(bytes, expected);
    assert_eq!(decode_kitty(&bytes), Some(kitty));
    assert_eq!(decode_kitty(&bytes[..23]), None);
    assert_eq!(decode_v0(&bytes), Some(KittyVersion0(dna(8))));
    assert_eq!(decode_v0(&bytes[..15]), None);
    assert_eq!(decode_v1(&bytes[..19]), None);
}

#[test]
fn upgrade_record_of_each_step() {
    let v0 = encode_v0(&KittyVersion0(dna(1)));
    let mut expected = dna(1).to_vec();
    expected.extend_from_slice(b"abcd");
    assert_eq!(upgrade_record(Step::V0ToV1, &v0), Some(expected));
    let mut expected = dna(1).to_vec();
    expected.extend_from_slice(b"abcdefgh");
    assert_eq!(upgrade_record(Step::V0ToV2, &v0), Some(expected));
    assert_eq!(upgrade_record(Step::V1ToV2, &v0), None);
}

#[test]
fn store_insert_replaces() {
    let mut store = RecordStore::new();
    store.insert(3, vec![1, 2]);
    store.insert(3, vec![4]);
    assert_eq!(store.get(3), Some(vec![4]));
    assert_eq!(store.get(4), None);
}
