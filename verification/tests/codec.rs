//! Wire-format tests: exact expected bytes for every value kind, and
//! concrete round trips through a test decoder mirroring the grammar.

use win_etw::guid::Guid;
use win_etw::types::FieldValue;
use win_etw::types::encode_value;
use win_etw::Error;

fn enc(v: FieldValue) -> Vec<u8> {
    encode_value(&v).unwrap()
}

fn utf16z(s: &str) -> Vec<u8> {
    let mut out = Vec::new();
    for u in s.encode_utf16() {
        out.extend_from_slice(&u.to_le_bytes());
    }
    out.extend_from_slice(&[0, 0]);
    out
}

#[test]
fn encode_u8_exact() {
    assert_eq!(enc(FieldValue::U8(0xAB)), vec![0xAB]);
}

#[test]
fn encode_i8_exact() {
    assert_eq!(enc(FieldValue::I8(-1)), vec![0xFF]);
}

#[test]
fn encode_u16_exact() {
    assert_eq!(enc(FieldValue::U16(0x0102)), vec![0x02, 0x01]);
}

#[test]
fn encode_i16_exact() {
    assert_eq!(enc(FieldValue::I16(-2)), vec![0xFE, 0xFF]);
}

#[test]
fn encode_u32_exact() {
    assert_eq!(enc(FieldValue::U32(0x01020304)), vec![0x04, 0x03, 0x02, 0x01]);
}

#[test]
fn encode_i32_exact() {
    assert_eq!(enc(FieldValue::I32(-1)), vec![0xFF, 0xFF, 0xFF, 0xFF]);
}

#[test]
fn encode_u64_exact() {
    assert_eq!(
        enc(FieldValue::U64(0x0102030405060708)),
        vec![0x08, 0x07, 0x06, 0x05, 0x04, 0x03, 0x02, 0x01]
    );
}

#[test]
fn encode_i64_exact() {
    assert_eq!(
        enc(FieldValue::I64(-2)),
        vec![0xFE, 0xFF, 0xFF, 0xFF, 0xFF, 0xFF, 0xFF, 0xFF]
    );
}

#[test]
fn encode_bool_exact() {
    assert_eq!(enc(FieldValue::Bool(true)), vec![1, 0, 0, 0]);
    assert_eq!(enc(FieldValue::Bool(false)), vec![0, 0, 0, 0]);
}

#[test]
fn encode_filetime_exact() {
    assert_eq!(
        enc(FieldValue::FileTime(0x01020304)),
        vec![0x04, 0x03, 0x02, 0x01, 0, 0, 0, 0]
    );
}

#[test]
fn encode_str_exact() {
    assert_eq!(enc(FieldValue::Str("hi".to_string())), utf16z("hi"));
}

#[test]
fn encode_str_surrogate_pair() {
    // U+1F600 encodes as the surrogate pair D83D DE00.
    let got = enc(FieldValue::Str("\u{1F600}".to_string()));
    assert_eq!(got, vec![0x3D, 0xD8, 0x00, 0xDE, 0x00, 0x00]);
    assert_eq!(got, utf16z("\u{1F600}"));
}

#[test]
fn encode_empty_str() {
    assert_eq!(enc(FieldValue::Str(String::new())), vec![0, 0]);
}

#[test]
fn encode_guid_mixed_endian() {
    let g = Guid::from_fields(0x01020304, 0x0506, 0x0708, [9, 10, 11, 12, 13, 14, 15, 16]);
    assert_eq!(
        enc(FieldValue::Guid(g)),
        vec![0x04, 0x03, 0x02, 0x01, 0x06, 0x05, 0x08, 0x07, 9, 10, 11, 12, 13, 14, 15, 16]
    );
}

#[test]
fn encode_binary_counted() {
    assert_eq!(enc(FieldValue::Binary(vec![0xAB, 0xCD])), vec![2, 0, 0xAB, 0xCD]);
}

#[test]
fn encode_array_u32_counted() {
    assert_eq!(
        enc(FieldValue::ArrayU32(vec![1, 2])),
        vec![2, 0, 1, 0, 0, 0, 2, 0, 0, 0]
    );
}

#[test]
fn oversized_array_rejected() {
    let v = FieldValue::ArrayU32(vec![0u32; 65536]);
    assert_eq!(encode_value(&v).unwrap_err(), Error::FieldTooLarge);
}

#[test]
fn array_at_limit_accepted() {
    let v = FieldValue::ArrayU32(vec![7u32; 65535]);
    let b = encode_value(&v).unwrap();
    assert_eq!(b.len(), 2 + 4 * 65535);
    assert_eq!(&b[0..2], &[0xFF, 0xFF]);
}

#[test]
fn oversized_binary_rejected() {
    let v = FieldValue::Binary(vec![0u8; 65536]);
    assert_eq!(encode_value(&v).unwrap_err(), Error::UnsupportedSize);
}

// A symmetric test decoder for the scalar layouts, mirroring the grammar.
fn decode_u32(b: &[u8]) -> u32 {
    u32::from_le_bytes([b[0], b[1], b[2], b[3]])
}

fn decode_utf16z(b: &[u8]) -> String {
    assert!(b.len() >= 2 && b.len() % 2 == 0);
    let units: Vec<u16> = b
        .chunks(2)
        .map(|c| u16::from_le_bytes([c[0], c[1]]))
        .collect();
    assert_eq!(*units.last().unwrap(), 0);
    String::from_utf16(&units[..units.len() - 1]).unwrap()
}

#[test]
fn round_trip_u32_concrete() {
    for x in [0u32, 1, 42, 0xDEADBEEF, u32::MAX] {
        assert_eq!(decode_u32(&enc(FieldValue::U32(x))), x);
    }
}

#[test]
fn round_trip_str_concrete() {
    for s in ["", "hello", "grüße", "\u{1F600}\u{10FFFF}", "crate::mod"] {
        assert_eq!(decode_utf16z(&enc(FieldValue::Str(s.to_string()))), s);
    }
}

#[test]
fn round_trip_i64_concrete() {
    for x in [0i64, -1, i64::MIN, i64::MAX, 42] {
        let b = enc(FieldValue::I64(x));
        let got = i64::from_le_bytes([b[0], b[1], b[2], b[3], b[4], b[5], b[6], b[7]]);
        assert_eq!(got, x);
    }
}
