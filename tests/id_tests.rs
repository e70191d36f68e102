use spool::id::{base36_encode, radix_encode};

#[test]
fn test_base36_encode() {
    assert_eq!(base36_encode(0), "0");
    assert_eq!(base36_encode(35), "z");
    assert_eq!(base36_encode(36), "10");
}

#[test]
fn radix_encode_hex_and_decimal() {
    assert_eq!(radix_encode(255, 16), "ff");
    assert_eq!(radix_encode(1234567890, 10), "1234567890");
    assert_eq!(radix_encode(u128::MAX, 16), "ffffffffffffffffffffffffffffffff");
}
