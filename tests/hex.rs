use crypto_common::hex::{decode, write_lower, write_upper};
use std::fmt;

const EXAMPLE_DATA: &[u8] = &[0x01, 0x23, 0x45, 0x67, 0x89, 0xAB, 0xCD, 0xEF];
const EXAMPLE_HEX_LOWER: &str = "0123456789abcdef";
const EXAMPLE_HEX_UPPER: &str = "0123456789ABCDEF";

struct Wrapper<'a>(&'a [u8]);

impl fmt::LowerHex for Wrapper<'_> {
    fn fmt(&self, f: &mut fmt::Formatter<'_>) -> fmt::Result {
        let mut out = Vec::new();
        write_lower(self.0, &mut out);
        f.write_str(std::str::from_utf8(&out).unwrap())
    }
}

impl fmt::UpperHex for Wrapper<'_> {
    fn fmt(&self, f: &mut fmt::Formatter<'_>) -> fmt::Result {
        let mut out = Vec::new();
        write_upper(self.0, &mut out);
        f.write_str(std::str::from_utf8(&out).unwrap())
    }
}

#[test]
fn decode_lower() {
    let mut buf = [0u8; 8];
    decode(EXAMPLE_HEX_LOWER, &mut buf).unwrap();
    assert_eq!(buf, EXAMPLE_DATA);
}

#[test]
fn decode_upper() {
    let mut buf = [0u8; 8];
    decode(EXAMPLE_HEX_LOWER, &mut buf).unwrap();
    assert_eq!(buf, EXAMPLE_DATA);
}

#[test]
fn decode_rejects_mixed_case() {
    let mut buf = [0u8; 8];
    assert!(decode("0123456789abcDEF", &mut buf).is_err());
}

#[test]
fn decode_rejects_too_short() {
    let mut buf = [0u8; 9];
    assert!(decode(EXAMPLE_HEX_LOWER, &mut buf).is_err());
}

#[test]
fn decode_rejects_too_long() {
    let mut buf = [0u8; 7];
    assert!(decode(EXAMPLE_HEX_LOWER, &mut buf).is_err());
}

#[test]
fn encode_lower() {
    assert_eq!(format!("{:x}", Wrapper(EXAMPLE_DATA)), EXAMPLE_HEX_LOWER);
}

#[test]
fn encode_upper() {
    assert_eq!(format!("{:X}", Wrapper(EXAMPLE_DATA)), EXAMPLE_HEX_UPPER);
}

#[test]
fn decode_upper_case_input() {
    let mut buf = [0u8; 8];
    decode(EXAMPLE_HEX_UPPER, &mut buf).unwrap();
    assert_eq!(buf, EXAMPLE_DATA);
}

#[test]
fn decode_rejects_non_hex_letter() {
    let mut buf = [7u8; 2];
    assert!(decode("0g12", &mut buf).is_err());
    assert_eq!(buf, [7u8, 7u8]);
}

#[test]
fn decode_empty() {
    let mut buf = [0u8; 0];
    assert!(decode("", &mut buf).is_ok());
}

#[test]
fn encode_appends() {
    let mut out = b"x".to_vec();
    write_lower(&[0x0f, 0xa0], &mut out);
    assert_eq!(out, b"x0fa0".to_vec());
}
