use drgraph::hasher::bits_from_bytes;
use drgraph::{hash_leaf, hash_node, TreeAlgorithm, TreeHash};

fn from_hex(hex: &str) -> [u8; 32] {
    let mut out = [0u8; 32];
    for i in 0..32 {
        out[i] = u8::from_str_radix(&hex[2 * i..2 * i + 2], 16).unwrap();
    }
    out
}

/// The bytes of a field element that is written as a big-endian number.
fn le_bytes_of(number: &str) -> [u8; 32] {
    let mut out = from_hex(number);
    out.reverse();
    out
}

const ORDER: &str = "73eda753299d7d483339d80809a1d80553bda402fffe5bfeffffffff00000001";

#[test]
fn digest_of_nothing_is_the_known_point() {
    let expected = le_bytes_of("06b1187c11ca4fb4383b2e0d0dbbde3ad3617338b5029187ec65a5eaed5e4d0b");
    assert_eq!(hash_node(&[]).to_bytes(), expected);
    assert_eq!(TreeAlgorithm::new().hash().to_bytes(), expected);
}

#[test]
fn digest_of_known_bytes_is_the_known_point() {
    let data: [u8; 23] = [
        197, 34, 2, 131, 15, 199, 205, 167, 66, 155, 47, 42, 12, 112, 26, 38, 9, 180, 239, 141,
        121, 232, 195,
    ];
    let expected = le_bytes_of("601247c7e640992d193dfb51df6ed93446687a7f2bcd0e4a598e6feb1ef20c40");
    assert_eq!(hash_node(&data).to_bytes(), expected);
}

#[test]
fn node_of_two_unit_leaves_is_the_known_root() {
    let mut unit = [0u8; 32];
    unit[0] = 1;
    let one = TreeHash::from_bytes(unit).unwrap();
    let mut a = TreeAlgorithm::new();
    let layer0 = a.node(one, one, 0);
    assert_eq!(
        layer0.to_bytes(),
        from_hex("817de36ab2d57feb077634bca77819c8e0bd298c04f6fed0e6a83cc1356ca155")
    );
    let layer1 = a.node(layer0, layer0, 1);
    assert_eq!(
        layer1.to_bytes(),
        from_hex("ffe9fc03f18b176c998806439ff0bb8ad193afdb27b2ccbc88856916dd804e34")
    );
}

#[test]
fn node_depends_on_layer_and_order() {
    let l = hash_node(b"left");
    let r = hash_node(b"right");
    let mut a = TreeAlgorithm::new();
    assert_ne!(a.node(l, r, 0), a.node(r, l, 0));
    assert_ne!(a.node(l, r, 0), a.node(l, r, 1));
    assert_eq!(a.node(l, r, 62), a.node(l, r, 62));
    assert_ne!(a.node(l, r, 0), l);
}

#[test]
fn leaf_transform_is_the_digest_of_the_digest() {
    let data = [2u8; 16];
    let plain = hash_node(&data);
    let leaf = hash_leaf(&data);
    assert_ne!(plain, leaf);
    assert_eq!(leaf, hash_node(&plain.to_bytes()));
    let mut a = TreeAlgorithm::default();
    assert_eq!(a.leaf(plain), leaf);
}

#[test]
fn leaf_and_node_are_kept_apart() {
    let d = hash_node(&[9u8; 32]);
    let mut a = TreeAlgorithm::new();
    let leaf = a.leaf(d);
    for layer in 0..4 {
        assert_ne!(a.node(d, d, layer), leaf);
    }
}

#[test]
fn hasher_absorbs_in_order_and_resets() {
    let mut a = TreeAlgorithm::new();
    assert_eq!(a.len(), 0);
    a.write(&[1, 2, 3]);
    a.write(&[4, 5]);
    assert_eq!(a.len(), 5);
    assert_eq!(a.hash(), hash_node(&[1, 2, 3, 4, 5]));
    assert_ne!(a.hash(), hash_node(&[4, 5, 1, 2, 3]));
    let d = a.hash();
    let _ = a.leaf(d);
    let _ = a.node(d, d, 3);
    assert_eq!(a.hash(), hash_node(&[1, 2, 3, 4, 5]));
    a.reset();
    assert_eq!(a.len(), 0);
    assert_eq!(a.hash(), hash_node(&[]));
    a.write(&[7u8; 64]);
    assert_eq!(a.hash(), hash_node(&[7u8; 64]));
}

#[test]
fn hasher_takes_its_longest_input() {
    let data = [0xa5u8; 141];
    let d = hash_node(&data);
    assert_ne!(d, hash_node(&data[..140]));
    assert_eq!(TreeHash::from_bytes(d.to_bytes()), Some(d));
}

#[test]
fn bits_are_read_least_significant_first() {
    assert_ne!(hash_node(&[0x01]), hash_node(&[0x80]));
    assert_ne!(hash_node(&[0x01, 0x00]), hash_node(&[0x00, 0x01]));
    assert_ne!(hash_node(&[0x00]), hash_node(&[0x00, 0x00]));
}

#[test]
fn digests_are_canonical_field_elements() {
    assert!(TreeHash::from_bytes([0u8; 32]).is_some());
    let order = le_bytes_of(ORDER);
    assert!(TreeHash::from_bytes(order).is_none());
    let mut below = order;
    below[0] -= 1;
    let top = TreeHash::from_bytes(below).unwrap();
    assert_eq!(top.to_bytes(), below);
    let mut above = order;
    above[0] += 1;
    assert!(TreeHash::from_bytes(above).is_none());
    assert!(TreeHash::from_bytes([0xffu8; 32]).is_none());
    let mut high = [0u8; 32];
    high[31] = 0x73;
    assert!(TreeHash::from_bytes(high).is_some());
    high[31] = 0x74;
    assert!(TreeHash::from_bytes(high).is_none());
}

#[test]
fn default_digest_is_all_zero() {
    let zero = TreeHash::default();
    assert_eq!(zero.to_bytes(), [0u8; 32]);
    assert_eq!(zero.serialize(), vec![0u8; 32]);
    assert_eq!(zero, TreeHash::from_bytes([0u8; 32]).unwrap());
}

#[test]
fn digests_are_equal_by_value_and_round_trip_through_bytes() {
    let a = hash_node(b"a");
    let b = hash_node(b"b");
    assert_eq!(a, hash_node(b"a"));
    assert_ne!(a, b);
    assert_eq!(TreeHash::from_bytes(a.to_bytes()).unwrap(), a);
    assert_eq!(a.serialize(), a.to_bytes().to_vec());
    assert_eq!(a.serialize().len(), 32);
    let mut bytes = b.to_bytes();
    bytes[31] ^= 0x01;
    if let Some(other) = TreeHash::from_bytes(bytes) {
        assert_ne!(other, b);
    }
}

#[test]
fn bytes_become_bits_in_place_order() {
    assert_eq!(bits_from_bytes(&[]), Vec::<bool>::new());
    assert_eq!(
        bits_from_bytes(&[0x01]),
        vec![true, false, false, false, false, false, false, false]
    );
    assert_eq!(
        bits_from_bytes(&[0x80, 0x05]),
        vec![
            false, false, false, false, false, false, false, true, true, false, true, false,
            false, false, false, false
        ]
    );
    assert_eq!(bits_from_bytes(&[0xffu8; 141]), vec![true; 1128]);
}
