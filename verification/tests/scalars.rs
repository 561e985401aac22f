use solvency::{get_amount_and_code_blinds, Scalar};

/// The group order, least significant byte first.
const ORDER: [u8; 32] = [
    0xed, 0xd3, 0xf5, 0x5c, 0x1a, 0x63, 0x12, 0x58, 0xd6, 0x9c, 0xf7, 0xa2, 0xde, 0xf9, 0xde, 0x14,
    0x00, 0x00, 0x00, 0x00, 0x00, 0x00, 0x00, 0x00, 0x00, 0x00, 0x00, 0x00, 0x00, 0x00, 0x00, 0x10,
];

fn order_plus(k: u8) -> Scalar {
    let mut bytes = ORDER;
    bytes[0] += k;
    Scalar::from_bytes(bytes)
}

fn order_minus_one() -> Scalar {
    let mut bytes = ORDER;
    bytes[0] -= 1;
    Scalar::from_bytes(bytes)
}

#[test]
fn from_u64_is_little_endian() {
    let s = Scalar::from_u64(0x0102_0304_0506_0708);
    let mut expected = [0u8; 32];
    expected[..8].copy_from_slice(&[8, 7, 6, 5, 4, 3, 2, 1]);
    assert_eq!(s.to_bytes(), expected);
    assert_eq!(s.to_u64(), Some(0x0102_0304_0506_0708));
}

#[test]
fn from_u64_agrees_with_the_curve_library() {
    for x in [0u64, 1, 10, 0xffff_ffff, 1 << 32, u64::MAX] {
        let expected = curve25519_dalek::scalar::Scalar::from(x).to_bytes();
        assert_eq!(Scalar::from_u64(x).to_bytes(), expected);
        assert_eq!(Scalar::from_u64(x).to_u64(), Some(x));
    }
}

#[test]
fn bytes_round_trip() {
    let bytes = order_minus_one().to_bytes();
    assert_eq!(Scalar::from_bytes(bytes).to_bytes(), bytes);
    assert_eq!(Scalar::from_bytes(bytes), order_minus_one());
}

#[test]
fn to_u64_is_none_above_64_bits() {
    let mut bytes = [0u8; 32];
    bytes[8] = 1;
    assert_eq!(Scalar::from_bytes(bytes).to_u64(), None);
    let mut bytes = [0u8; 32];
    bytes[31] = 0x10;
    assert_eq!(Scalar::from_bytes(bytes).to_u64(), None);
    assert_eq!(order_minus_one().to_u64(), None);
}

#[test]
fn to_u64_reads_all_eight_low_bytes() {
    let mut bytes = [0u8; 32];
    bytes[7] = 0xff;
    assert_eq!(Scalar::from_bytes(bytes).to_u64(), Some(0xff00_0000_0000_0000));
    let bytes = {
        let mut b = [0u8; 32];
        b[..8].copy_from_slice(&[0xff; 8]);
        b
    };
    assert_eq!(Scalar::from_bytes(bytes).to_u64(), Some(u64::MAX));
}

#[test]
fn add_mod_adds() {
    let sum = Scalar::from_u64(3).add_mod(&Scalar::from_u64(4));
    assert_eq!(sum, Scalar::from_u64(7));
    let carried = Scalar::from_u64(u64::MAX).add_mod(&Scalar::from_u64(1));
    let mut expected = [0u8; 32];
    expected[8] = 1;
    assert_eq!(carried.to_bytes(), expected);
}

#[test]
fn add_mod_wraps_at_the_group_order() {
    let sum = order_minus_one().add_mod(&Scalar::from_u64(1));
    assert_eq!(sum, Scalar::from_u64(0));
    let sum = order_minus_one().add_mod(&Scalar::from_u64(5));
    assert_eq!(sum, Scalar::from_u64(4));
}

#[test]
fn mul_mod_multiplies() {
    let product = Scalar::from_u64(6).mul_mod(&Scalar::from_u64(7));
    assert_eq!(product, Scalar::from_u64(42));
    let square = Scalar::from_u64(1 << 32).mul_mod(&Scalar::from_u64(1 << 32));
    let mut expected = [0u8; 32];
    expected[8] = 1;
    assert_eq!(square.to_bytes(), expected);
}

#[test]
fn mul_mod_wraps_at_the_group_order() {
    // (l - 1) * (l - 1) = 1 modulo l.
    let product = order_minus_one().mul_mod(&order_minus_one());
    assert_eq!(product, Scalar::from_u64(1));
}

#[test]
fn arithmetic_reduces_unreduced_operands() {
    assert_eq!(order_plus(2).add_mod(&Scalar::from_u64(0)), Scalar::from_u64(2));
    assert_eq!(order_plus(2).mul_mod(&Scalar::from_u64(3)), Scalar::from_u64(6));
    assert_eq!(Scalar::from_u64(3).mul_mod(&order_plus(2)), Scalar::from_u64(6));
}

#[test]
fn blinds_are_combined_limb_by_limb() {
    let triples = vec![
        ((Scalar::from_u64(3), Scalar::from_u64(5)), Scalar::from_u64(7)),
        ((Scalar::from_u64(0), Scalar::from_u64(0)), Scalar::from_u64(0)),
        ((Scalar::from_u64(u64::MAX), Scalar::from_u64(0)), Scalar::from_u64(9)),
    ];
    let combined = get_amount_and_code_blinds(triples);
    assert_eq!(combined.len(), 3);
    assert_eq!(combined[0].0.to_u64(), Some(3 + (5u64 << 32)));
    assert_eq!(combined[0].1, Scalar::from_u64(7));
    assert_eq!(combined[1], (Scalar::from_u64(0), Scalar::from_u64(0)));
    assert_eq!(combined[2], (Scalar::from_u64(u64::MAX), Scalar::from_u64(9)));
}

#[test]
fn combined_blind_exceeds_64_bits() {
    // 1 + 2^32 * 2^32 = 1 + 2^64
    let combined =
        get_amount_and_code_blinds(vec![((Scalar::from_u64(1), Scalar::from_u64(1 << 32)), Scalar::from_u64(2))]);
    let mut expected = [0u8; 32];
    expected[0] = 1;
    expected[8] = 1;
    assert_eq!(combined[0].0.to_bytes(), expected);
}

#[test]
fn combined_blind_wraps_at_the_group_order() {
    // (l - 1) + 2^32 * 1 = 2^32 - 1 modulo l.
    let combined = get_amount_and_code_blinds(vec![((order_minus_one(), Scalar::from_u64(1)), Scalar::from_u64(2))]);
    assert_eq!(combined[0].0, Scalar::from_u64((1 << 32) - 1));
}

#[test]
fn combined_blinds_agree_with_the_curve_library() {
    let low = curve25519_dalek::scalar::Scalar::from_bytes_mod_order([0x5a; 32]);
    let high = curve25519_dalek::scalar::Scalar::from_bytes_mod_order([0xc3; 32]);
    let expected = low + curve25519_dalek::scalar::Scalar::from(1u64 << 32) * high;
    let combined = get_amount_and_code_blinds(vec![(
        (Scalar::from_bytes(low.to_bytes()), Scalar::from_bytes(high.to_bytes())),
        Scalar::from_u64(1),
    )]);
    assert_eq!(combined[0].0.to_bytes(), expected.to_bytes());
}

#[test]
fn no_blinds_give_no_blinds() {
    assert!(get_amount_and_code_blinds(Vec::new()).is_empty());
}
