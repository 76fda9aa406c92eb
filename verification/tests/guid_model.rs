//! Identifier model tests: parsing, canonical text, and deterministic
//! name-based derivation checked against the outside hash.

use sha1::Digest;
use win_etw::guid::Guid;
use win_etw::Error;

fn wire_bytes(g: &Guid) -> Vec<u8> {
    let mut v = Vec::new();
    g.put_bytes(&mut v);
    v
}

#[test]
fn parse_canonical() {
    let g = Guid::parse("7f006a22-73fb-4c17-b1eb-0a3070f9f187").unwrap();
    assert_eq!(g.data1, 0x7f006a22);
    assert_eq!(g.data2, 0x73fb);
    assert_eq!(g.data3, 0x4c17);
    assert_eq!(g.data4, [0xb1, 0xeb, 0x0a, 0x30, 0x70, 0xf9, 0xf1, 0x87]);
}

#[test]
fn parse_braced() {
    let g = Guid::parse("{00000000-0000-0000-0000-000000000001}").unwrap();
    assert_eq!(g.data1, 0);
    assert_eq!(g.data2, 0);
    assert_eq!(g.data3, 0);
    assert_eq!(g.data4, [0, 0, 0, 0, 0, 0, 0, 1]);
}

#[test]
fn parse_uppercase_hex() {
    let g = Guid::parse("7F006A22-73FB-4C17-B1EB-0A3070F9F187").unwrap();
    assert_eq!(g.data1, 0x7f006a22);
}

#[test]
fn parse_rejects_bad_length() {
    assert_eq!(Guid::parse("1234").unwrap_err(), Error::FormatError);
    assert_eq!(Guid::parse("").unwrap_err(), Error::FormatError);
}

#[test]
fn parse_rejects_bad_dash() {
    assert_eq!(
        Guid::parse("7f006a22x73fb-4c17-b1eb-0a3070f9f187").unwrap_err(),
        Error::FormatError
    );
}

#[test]
fn parse_rejects_bad_hex() {
    assert_eq!(
        Guid::parse("7g006a22-73fb-4c17-b1eb-0a3070f9f187").unwrap_err(),
        Error::FormatError
    );
}

#[test]
fn parse_rejects_half_braced() {
    assert_eq!(
        Guid::parse("{7f006a22-73fb-4c17-b1eb-0a3070f9f187").unwrap_err(),
        Error::FormatError
    );
}

#[test]
fn canonical_string_exact() {
    let g = Guid::from_fields(0x7f006a22, 0x73fb, 0x4c17, [0xb1, 0xeb, 0x0a, 0x30, 0x70, 0xf9, 0xf1, 0x87]);
    assert_eq!(g.to_canonical_string(), "7f006a22-73fb-4c17-b1eb-0a3070f9f187");
}

#[test]
fn parse_canonical_round_trip() {
    let text = "0102aabb-ccdd-eeff-0011-223344556677";
    let g = Guid::parse(text).unwrap();
    assert_eq!(g.to_canonical_string(), text);
}

#[test]
fn from_name_deterministic() {
    let ns = Guid::parse("7f006a22-73fb-4c17-b1eb-0a3070f9f187").unwrap();
    let a = Guid::from_name(&ns, "MyProvider");
    let b = Guid::from_name(&ns, "MyProvider");
    assert_eq!(a, b);
    assert_eq!(wire_bytes(&a), wire_bytes(&b));
    let c = Guid::from_name(&ns, "OtherProvider");
    assert_ne!(wire_bytes(&a), wire_bytes(&c));
}

#[test]
fn from_name_matches_reference_hash() {
    let ns = Guid::from_fields(0x01020304, 0x0506, 0x0708, [9, 10, 11, 12, 13, 14, 15, 16]);
    let name = "MyProvider";
    let mut input = wire_bytes(&ns);
    for u in name.encode_utf16() {
        input.extend_from_slice(&u.to_le_bytes());
    }
    let digest = sha1::Sha1::digest(&input);
    let mut expected: Vec<u8> = digest[..16].to_vec();
    expected[7] = (expected[7] & 0x0F) | 0x50;
    let g = Guid::from_name(&ns, name);
    assert_eq!(wire_bytes(&g), expected);
}
