//! The verified formatting helpers on exact expected values.
use sui::format::{dec_string, hex_string};

#[test]
fn hex_of_bytes() {
    assert_eq!(hex_string(&[]), "");
    assert_eq!(hex_string(&[0x00]), "00");
    assert_eq!(hex_string(&[0xde, 0xad, 0xbe, 0xef]), "deadbeef");
    assert_eq!(hex_string(&[0x0f, 0xf0]), "0ff0");
}

#[test]
fn decimal_of_numbers() {
    assert_eq!(dec_string(0), "0");
    assert_eq!(dec_string(7), "7");
    assert_eq!(dec_string(10), "10");
    assert_eq!(dec_string(1000), "1000");
    assert_eq!(dec_string(u64::MAX), "18446744073709551615");
}
