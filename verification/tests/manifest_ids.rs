use dcli::manifestinterface::convert_hash_to_id;

#[test]
fn hash_with_high_bit_converts_to_negative_id() {
    assert_eq!(convert_hash_to_id(0x8000_0000), -2147483648);
}

#[test]
fn small_hash_converts_to_itself() {
    assert_eq!(convert_hash_to_id(0x0000_0001), 1);
    assert_eq!(convert_hash_to_id(0), 0);
    assert_eq!(convert_hash_to_id(0x7fff_ffff), 2147483647);
}

#[test]
fn largest_hash_converts_to_minus_one() {
    assert_eq!(convert_hash_to_id(0xFFFF_FFFF), -1);
}
