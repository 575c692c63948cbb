use kitties::dna::{cross, random_value};

#[test]
fn cross_with_itself_is_identity() {
    let p: [u8; 16] = [0, 1, 2, 3, 0x55, 0xaa, 0xff, 0x80, 9, 10, 11, 12, 13, 14, 15, 16];
    for selector in [[0u8; 16], [0xffu8; 16], [0x5au8; 16]] {
        assert_eq!(cross(&p, &p, &selector), p);
    }
}

#[test]
fn cross_takes_bits_by_selector() {
    let a = [0xf0u8; 16];
    let b = [0x0fu8; 16];
    assert_eq!(cross(&a, &b, &[0xffu8; 16]), a);
    assert_eq!(cross(&a, &b, &[0u8; 16]), b);
    assert_eq!(cross(&a, &b, &[0xccu8; 16]), [0xc3u8; 16]);
    let mut selector = [0u8; 16];
    selector[3] = 0x81;
    let mut expected = [0x0fu8; 16];
    expected[3] = 0x8e;
    assert_eq!(cross(&a, &b, &selector), expected);
}

#[test]
fn random_value_is_blake2_of_encoded_inputs() {
    assert_eq!(
        random_value(&[7u8; 32], 1, Some(2)),
        [138, 91, 113, 187, 31, 138, 145, 255, 215, 175, 94, 47, 102, 30, 73, 195]
    );
    assert_eq!(
        random_value(&[7u8; 32], 1, None),
        [203, 72, 224, 182, 212, 228, 215, 133, 120, 11, 106, 156, 2, 170, 100, 74]
    );
}

#[test]
fn random_value_differs_by_batch_position() {
    let seed = [3u8; 32];
    assert_ne!(random_value(&seed, 5, Some(0)), random_value(&seed, 5, Some(1)));
    assert_ne!(random_value(&seed, 5, Some(0)), random_value(&seed, 6, Some(0)));
    assert_eq!(random_value(&seed, 5, Some(0)), random_value(&seed, 5, Some(0)));
}
