//! Type system mapping.
//!
//! Every supported value type maps to a distinct in-type code of the
//! external vocabulary (plus an optional out-type hint carried in field
//! metadata) and to one canonical little-endian serialization rule.
//! `decode_value` is the symmetric mathematical decoder used to state the
//! round-trip law.

use vstd::prelude::*;
use vstd::arithmetic::power::pow;
use crate::Error;
use crate::guid::Guid;
use crate::guid::guid_bytes;
use crate::text::put_utf16z;
use crate::text::units_bytes;
use crate::text::utf16_decode;
use crate::text::utf16_units;
use crate::text::utf16z_bytes;
use crate::text::lemma_units_bytes_len;
use crate::text::lemma_utf16_round_trip;
use crate::wire::le_bytes;
use crate::wire::le_val;
use crate::wire::lemma_le_bytes_len;
use crate::wire::lemma_le_round_trip;
use crate::wire::put_le;

verus! {

/// In-type codes of the external vocabulary: the binary layout tag.
pub const IN_UNICODE_STRING: u8 = 1;

pub const IN_INT8: u8 = 3;

pub const IN_UINT8: u8 = 4;

pub const IN_INT16: u8 = 5;

pub const IN_UINT16: u8 = 6;

pub const IN_INT32: u8 = 7;

pub const IN_UINT32: u8 = 8;

pub const IN_INT64: u8 = 9;

pub const IN_UINT64: u8 = 10;

pub const IN_BOOL32: u8 = 13;

pub const IN_BINARY: u8 = 14;

pub const IN_GUID: u8 = 15;

pub const IN_FILETIME: u8 = 17;

/// Flag on an in-type: the value carries its own 16-bit element count.
pub const IN_VCOUNT_FLAG: u8 = 0x40;

/// A 32-bit element array: `IN_UINT32` with the variable-count flag set.
pub const IN_UINT32_VCOUNT: u8 = 0x48;

/// Flag on an in-type: the field metadata carries a fixed 16-bit count.
pub const IN_CCOUNT_FLAG: u8 = 0x20;

/// Flag on an in-type: an out-type byte follows in the field metadata.
pub const IN_CHAIN_FLAG: u8 = 0x80;

/// The default out-type: omitted from field metadata.
pub const OUT_DEFAULT: u8 = 0;

/// One typed argument value of an event field.
pub enum FieldValue {
    U8(u8),
    I8(i8),
    U16(u16),
    I16(i16),
    U32(u32),
    I32(i32),
    U64(u64),
    I64(i64),
    Bool(bool),
    Str(String),
    Guid(Guid),
    FileTime(i64),
    Binary(Vec<u8>),
    ArrayU32(Vec<u32>),
}

/// The mathematical content of a field value, over sequences instead of
/// heap-allocated containers.
pub enum ValueModel {
    U8(u8),
    I8(i8),
    U16(u16),
    I16(i16),
    U32(u32),
    I32(i32),
    U64(u64),
    I64(i64),
    Bool(bool),
    Str(Seq<char>),
    Guid(Seq<u8>),
    FileTime(i64),
    Binary(Seq<u8>),
    ArrayU32(Seq<u32>),
}

/// The model of a value.
pub open spec fn model_of(v: FieldValue) -> ValueModel {
    match v {
        FieldValue::U8(x) => ValueModel::U8(x),
        FieldValue::I8(x) => ValueModel::I8(x),
        FieldValue::U16(x) => ValueModel::U16(x),
        FieldValue::I16(x) => ValueModel::I16(x),
        FieldValue::U32(x) => ValueModel::U32(x),
        FieldValue::I32(x) => ValueModel::I32(x),
        FieldValue::U64(x) => ValueModel::U64(x),
        FieldValue::I64(x) => ValueModel::I64(x),
        FieldValue::Bool(x) => ValueModel::Bool(x),
        FieldValue::Str(s) => ValueModel::Str(s@),
        FieldValue::Guid(g) => ValueModel::Guid(guid_bytes(g)),
        FieldValue::FileTime(t) => ValueModel::FileTime(t),
        FieldValue::Binary(b) => ValueModel::Binary(b@),
        FieldValue::ArrayU32(a) => ValueModel::ArrayU32(a@),
    }
}

/// The in-type code a value serializes under; the mapping is total and the
/// codes of distinct value kinds are distinct.
pub open spec fn in_type_of(v: FieldValue) -> u8 {
    match v {
        FieldValue::U8(_) => IN_UINT8,
        FieldValue::I8(_) => IN_INT8,
        FieldValue::U16(_) => IN_UINT16,
        FieldValue::I16(_) => IN_INT16,
        FieldValue::U32(_) => IN_UINT32,
        FieldValue::I32(_) => IN_INT32,
        FieldValue::U64(_) => IN_UINT64,
        FieldValue::I64(_) => IN_INT64,
        FieldValue::Bool(_) => IN_BOOL32,
        FieldValue::Str(_) => IN_UNICODE_STRING,
        FieldValue::Guid(_) => IN_GUID,
        FieldValue::FileTime(_) => IN_FILETIME,
        FieldValue::Binary(_) => IN_BINARY,
        FieldValue::ArrayU32(_) => IN_UINT32_VCOUNT,
    }
}

/// Whether a value fits the format: variable-length values must fit their
/// 16-bit length or count field; everything else is always encodable.
pub open spec fn value_encodable(v: FieldValue) -> bool {
    match v {
        FieldValue::Binary(b) => b@.len() <= 0xFFFF,
        FieldValue::ArrayU32(a) => a@.len() <= 0xFFFF,
        _ => true,
    }
}

/// The error reported for a value that does not fit: an oversized counted
/// array overflows a count that also belongs to the schema, an oversized
/// byte buffer only its own length field.
pub open spec fn encode_err_of(v: FieldValue) -> Error {
    match v {
        FieldValue::ArrayU32(_) => Error::FieldTooLarge,
        _ => Error::UnsupportedSize,
    }
}

/// The 32-bit wire value of a boolean.
pub open spec fn bool32_val(b: bool) -> nat {
    if b {
        1
    } else {
        0
    }
}

/// The concatenated little-endian encodings of 32-bit elements.
pub open spec fn u32s_bytes(a: Seq<u32>) -> Seq<u8>
    decreases a.len(),
{
    if a.len() == 0 {
        Seq::empty()
    } else {
        le_bytes(a[0] as nat, 4) + u32s_bytes(a.skip(1))
    }
}

/// The canonical serialization of an encodable value.
pub open spec fn encoded_value(v: FieldValue) -> Seq<u8> {
    match v {
        FieldValue::U8(x) => le_bytes(x as nat, 1),
        FieldValue::I8(x) => le_bytes((x as u8) as nat, 1),
        FieldValue::U16(x) => le_bytes(x as nat, 2),
        FieldValue::I16(x) => le_bytes((x as u16) as nat, 2),
        FieldValue::U32(x) => le_bytes(x as nat, 4),
        FieldValue::I32(x) => le_bytes((x as u32) as nat, 4),
        FieldValue::U64(x) => le_bytes(x as nat, 8),
        FieldValue::I64(x) => le_bytes((x as u64) as nat, 8),
        FieldValue::Bool(b) => le_bytes(bool32_val(b), 4),
        FieldValue::Str(s) => utf16z_bytes(s@),
        FieldValue::Guid(g) => guid_bytes(g),
        FieldValue::FileTime(t) => le_bytes((t as u64) as nat, 8),
        FieldValue::Binary(b) => le_bytes(b@.len() as nat, 2) + b@,
        FieldValue::ArrayU32(a) => le_bytes(a@.len() as nat, 2) + u32s_bytes(a@),
    }
}

proof fn lemma_u32s_bytes_snoc(a: Seq<u32>, x: u32)
    ensures
        u32s_bytes(a.push(x)) == u32s_bytes(a) + le_bytes(x as nat, 4),
    decreases a.len(),
{
    if a.len() == 0 {
        assert(a.push(x).skip(1) =~= Seq::<u32>::empty());
        assert(a.push(x)[0] == x);
        assert(u32s_bytes(a.push(x)) == le_bytes(x as nat, 4) + u32s_bytes(a.push(x).skip(1)));
        assert(u32s_bytes(a.push(x)) =~= le_bytes(x as nat, 4));
        assert(u32s_bytes(a) + le_bytes(x as nat, 4) =~= le_bytes(x as nat, 4));
    } else {
        assert(a.push(x).skip(1) =~= a.skip(1).push(x));
        lemma_u32s_bytes_snoc(a.skip(1), x);
        assert(u32s_bytes(a.push(x)) =~= u32s_bytes(a) + le_bytes(x as nat, 4));
    }
}

/// Serializes one value into a fresh buffer; pure, and infallible for every
/// value within the format's length limits.
pub fn encode_value(v: &FieldValue) -> (r: Result<Vec<u8>, Error>)
    ensures
        r is Ok <==> value_encodable(*v),
        r is Ok ==> r->Ok_0@ == encoded_value(*v),
        r is Err ==> r->Err_0 == encode_err_of(*v),
{
    let mut out: Vec<u8> = Vec::new();
    match v {
        FieldValue::U8(x) => {
            put_le(&mut out, *x as u64, 1);
            Ok(out)
        },
        FieldValue::I8(x) => {
            put_le(&mut out, (*x as u8) as u64, 1);
            Ok(out)
        },
        FieldValue::U16(x) => {
            put_le(&mut out, *x as u64, 2);
            Ok(out)
        },
        FieldValue::I16(x) => {
            put_le(&mut out, (*x as u16) as u64, 2);
            Ok(out)
        },
        FieldValue::U32(x) => {
            put_le(&mut out, *x as u64, 4);
            Ok(out)
        },
        FieldValue::I32(x) => {
            put_le(&mut out, (*x as u32) as u64, 4);
            Ok(out)
        },
        FieldValue::U64(x) => {
            put_le(&mut out, *x, 8);
            Ok(out)
        },
        FieldValue::I64(x) => {
            put_le(&mut out, *x as u64, 8);
            Ok(out)
        },
        FieldValue::Bool(b) => {
            put_le(&mut out, if *b { 1 } else { 0 }, 4);
            Ok(out)
        },
        FieldValue::Str(s) => {
            put_utf16z(&mut out, s.as_str());
            Ok(out)
        },
        FieldValue::Guid(g) => {
            g.put_bytes(&mut out);
            Ok(out)
        },
        FieldValue::FileTime(t) => {
            put_le(&mut out, *t as u64, 8);
            Ok(out)
        },
        FieldValue::Binary(b) => {
            if b.len() > 0xFFFF {
                return Err(Error::UnsupportedSize);
            }
            put_le(&mut out, b.len() as u64, 2);
            let mut i: usize = 0;
            while i < b.len()
                invariant
                    i <= b@.len(),
                    b@.len() <= 0xFFFF,
                    out@ == le_bytes(b@.len() as nat, 2) + b@.take(i as int),
                decreases b@.len() - i,
            {
                out.push(b[i]);
                proof {
                    assert(b@.take(i as int + 1) =~= b@.take(i as int).push(b@[i as int]));
                    assert(out@ =~= le_bytes(b@.len() as nat, 2) + b@.take(i as int + 1));
                }
                i += 1;
            }
            proof {
                assert(b@.take(b@.len() as int) =~= b@);
            }
            Ok(out)
        },
        FieldValue::ArrayU32(a) => {
            if a.len() > 0xFFFF {
                return Err(Error::FieldTooLarge);
            }
            put_le(&mut out, a.len() as u64, 2);
            let mut i: usize = 0;
            while i < a.len()
                invariant
                    i <= a@.len(),
                    a@.len() <= 0xFFFF,
                    out@ == le_bytes(a@.len() as nat, 2) + u32s_bytes(a@.take(i as int)),
                decreases a@.len() - i,
            {
                put_le(&mut out, a[i] as u64, 4);
                proof {
                    assert(a@.take(i as int + 1) =~= a@.take(i as int).push(a@[i as int]));
                    lemma_u32s_bytes_snoc(a@.take(i as int), a@[i as int]);
                }
                i += 1;
            }
            proof {
                assert(a@.take(a@.len() as int) =~= a@);
            }
            Ok(out)
        },
    }
}

/// The 16-bit code units read from little-endian byte pairs.
pub open spec fn bytes_units(b: Seq<u8>) -> Seq<u16>
    decreases b.len(),
{
    if b.len() < 2 {
        Seq::empty()
    } else {
        seq![le_val(b.take(2)) as u16] + bytes_units(b.skip(2))
    }
}

/// The 32-bit elements read from little-endian 4-byte groups.
pub open spec fn bytes_u32s(b: Seq<u8>) -> Seq<u32>
    decreases b.len(),
{
    if b.len() < 4 {
        Seq::empty()
    } else {
        seq![le_val(b.take(4)) as u32] + bytes_u32s(b.skip(4))
    }
}

/// The symmetric decoder mirroring the external grammar: reads one value of
/// the given in-type back from its serialized bytes.
pub open spec fn decode_value(t: u8, b: Seq<u8>) -> Option<ValueModel> {
    if t == IN_UINT8 {
        if b.len() == 1 {
            Some(ValueModel::U8(le_val(b) as u8))
        } else {
            None
        }
    } else if t == IN_INT8 {
        if b.len() == 1 {
            Some(ValueModel::I8(le_val(b) as u8 as i8))
        } else {
            None
        }
    } else if t == IN_UINT16 {
        if b.len() == 2 {
            Some(ValueModel::U16(le_val(b) as u16))
        } else {
            None
        }
    } else if t == IN_INT16 {
        if b.len() == 2 {
            Some(ValueModel::I16(le_val(b) as u16 as i16))
        } else {
            None
        }
    } else if t == IN_UINT32 {
        if b.len() == 4 {
            Some(ValueModel::U32(le_val(b) as u32))
        } else {
            None
        }
    } else if t == IN_INT32 {
        if b.len() == 4 {
            Some(ValueModel::I32(le_val(b) as u32 as i32))
        } else {
            None
        }
    } else if t == IN_UINT64 {
        if b.len() == 8 {
            Some(ValueModel::U64(le_val(b) as u64))
        } else {
            None
        }
    } else if t == IN_INT64 {
        if b.len() == 8 {
            Some(ValueModel::I64(le_val(b) as u64 as i64))
        } else {
            None
        }
    } else if t == IN_BOOL32 {
        if b.len() == 4 && (le_val(b) == 0 || le_val(b) == 1) {
            Some(ValueModel::Bool(le_val(b) == 1))
        } else {
            None
        }
    } else if t == IN_UNICODE_STRING {
        if b.len() >= 2 && b.len() % 2 == 0 && bytes_units(b).last() == 0 {
            match utf16_decode(bytes_units(b).drop_last()) {
                Some(cs) => Some(ValueModel::Str(cs)),
                None => None,
            }
        } else {
            None
        }
    } else if t == IN_GUID {
        if b.len() == 16 {
            Some(ValueModel::Guid(b))
        } else {
            None
        }
    } else if t == IN_FILETIME {
        if b.len() == 8 {
            Some(ValueModel::FileTime(le_val(b) as u64 as i64))
        } else {
            None
        }
    } else if t == IN_BINARY {
        if b.len() >= 2 && le_val(b.take(2)) == b.len() - 2 {
            Some(ValueModel::Binary(b.skip(2)))
        } else {
            None
        }
    } else if t == IN_UINT32_VCOUNT {
        if b.len() >= 2 && (b.len() - 2) % 4 == 0 && le_val(b.take(2)) * 4 == b.len() - 2 {
            Some(ValueModel::ArrayU32(bytes_u32s(b.skip(2))))
        } else {
            None
        }
    } else {
        None
    }
}

/// Law: the type mapping is non-overlapping — two values that serialize
/// under the same in-type code are of the same kind.
pub proof fn lemma_in_type_non_overlapping(v1: FieldValue, v2: FieldValue)
    requires
        in_type_of(v1) == in_type_of(v2),
    ensures
        (v1 is U8 <==> v2 is U8),
        (v1 is I8 <==> v2 is I8),
        (v1 is U16 <==> v2 is U16),
        (v1 is I16 <==> v2 is I16),
        (v1 is U32 <==> v2 is U32),
        (v1 is I32 <==> v2 is I32),
        (v1 is U64 <==> v2 is U64),
        (v1 is I64 <==> v2 is I64),
        (v1 is Bool <==> v2 is Bool),
        (v1 is Str <==> v2 is Str),
        (v1 is Guid <==> v2 is Guid),
        (v1 is FileTime <==> v2 is FileTime),
        (v1 is Binary <==> v2 is Binary),
        (v1 is ArrayU32 <==> v2 is ArrayU32),
{
}

proof fn lemma_pow_256_small()
    ensures
        pow(256, 1) == 0x100,
        pow(256, 2) == 0x10000,
        pow(256, 4) == 0x100000000,
        pow(256, 8) == 0x10000000000000000,
{
    reveal_with_fuel(pow, 9);
}

/// Reading 16-bit units back from their little-endian bytes yields the
/// units.
proof fn lemma_bytes_units_inverse(u: Seq<u16>)
    ensures
        bytes_units(units_bytes(u)) == u,
    decreases u.len(),
{
    lemma_pow_256_small();
    if u.len() > 0 {
        lemma_bytes_units_inverse(u.skip(1));
        let b = units_bytes(u);
        lemma_le_bytes_len(u[0] as nat, 2);
        lemma_units_bytes_len(u.skip(1));
        assert(b.take(2) =~= le_bytes(u[0] as nat, 2));
        assert(b.skip(2) =~= units_bytes(u.skip(1)));
        lemma_le_round_trip(u[0] as nat, 2);
        assert(bytes_units(b) =~= u);
    } else {
        assert(units_bytes(u).len() == 0);
    }
}

/// Reading 32-bit elements back from their little-endian bytes yields the
/// elements.
proof fn lemma_bytes_u32s_inverse(a: Seq<u32>)
    ensures
        bytes_u32s(u32s_bytes(a)) == a,
    decreases a.len(),
{
    lemma_pow_256_small();
    if a.len() > 0 {
        lemma_bytes_u32s_inverse(a.skip(1));
        let b = u32s_bytes(a);
        lemma_le_bytes_len(a[0] as nat, 4);
        lemma_u32s_bytes_len(a.skip(1));
        assert(b.take(4) =~= le_bytes(a[0] as nat, 4));
        assert(b.skip(4) =~= u32s_bytes(a.skip(1)));
        lemma_le_round_trip(a[0] as nat, 4);
        assert(bytes_u32s(b) =~= a);
    } else {
        assert(u32s_bytes(a).len() == 0);
    }
}

proof fn lemma_u32s_bytes_len(a: Seq<u32>)
    ensures
        u32s_bytes(a).len() == 4 * a.len(),
    decreases a.len(),
{
    if a.len() > 0 {
        lemma_le_bytes_len(a[0] as nat, 4);
        lemma_u32s_bytes_len(a.skip(1));
    }
}

/// Law: for every encodable value, decoding its serialization under its own
/// in-type yields the value's model back — the round trip is the identity.
pub proof fn lemma_value_round_trip(v: FieldValue)
    requires
        value_encodable(v),
    ensures
        decode_value(in_type_of(v), encoded_value(v)) == Some(model_of(v)),
{
    lemma_pow_256_small();
    let b = encoded_value(v);
    match v {
        FieldValue::U8(x) => {
            lemma_le_bytes_len(x as nat, 1);
            lemma_le_round_trip(x as nat, 1);
            assert(pow(256, 1) == 256) by {
                reveal_with_fuel(pow, 2);
            }
        },
        FieldValue::I8(x) => {
            lemma_le_bytes_len((x as u8) as nat, 1);
            lemma_le_round_trip((x as u8) as nat, 1);
            assert((x as u8) as i8 == x) by (bit_vector);
        },
        FieldValue::U16(x) => {
            lemma_le_bytes_len(x as nat, 2);
            lemma_le_round_trip(x as nat, 2);
        },
        FieldValue::I16(x) => {
            lemma_le_bytes_len((x as u16) as nat, 2);
            lemma_le_round_trip((x as u16) as nat, 2);
            assert((x as u16) as i16 == x) by (bit_vector);
        },
        FieldValue::U32(x) => {
            lemma_le_bytes_len(x as nat, 4);
            lemma_le_round_trip(x as nat, 4);
        },
        FieldValue::I32(x) => {
            lemma_le_bytes_len((x as u32) as nat, 4);
            lemma_le_round_trip((x as u32) as nat, 4);
            assert((x as u32) as i32 == x) by (bit_vector);
        },
        FieldValue::U64(x) => {
            lemma_le_bytes_len(x as nat, 8);
            lemma_le_round_trip(x as nat, 8);
        },
        FieldValue::I64(x) => {
            lemma_le_bytes_len((x as u64) as nat, 8);
            lemma_le_round_trip((x as u64) as nat, 8);
            assert((x as u64) as i64 == x) by (bit_vector);
        },
        FieldValue::Bool(x) => {
            lemma_le_bytes_len(bool32_val(x), 4);
            lemma_le_round_trip(bool32_val(x), 4);
        },
        FieldValue::Str(s) => {
            let u = utf16_units(s@);
            lemma_units_bytes_len(u.push(0u16));
            lemma_bytes_units_inverse(u.push(0u16));
            assert(bytes_units(b) == u.push(0u16));
            assert(bytes_units(b).last() == 0);
            assert(bytes_units(b).drop_last() =~= u);
            lemma_utf16_round_trip(s@);
        },
        FieldValue::Guid(g) => {
            lemma_le_bytes_len(g.data1 as nat, 4);
            lemma_le_bytes_len(g.data2 as nat, 2);
            lemma_le_bytes_len(g.data3 as nat, 2);
            assert(b.len() == 16);
        },
        FieldValue::FileTime(t) => {
            lemma_le_bytes_len((t as u64) as nat, 8);
            lemma_le_round_trip((t as u64) as nat, 8);
            assert((t as u64) as i64 == t) by (bit_vector);
        },
        FieldValue::Binary(bytes) => {
            lemma_le_bytes_len(bytes@.len() as nat, 2);
            lemma_le_round_trip(bytes@.len() as nat, 2);
            assert(b.take(2) =~= le_bytes(bytes@.len() as nat, 2));
            assert(b.skip(2) =~= bytes@);
        },
        FieldValue::ArrayU32(a) => {
            lemma_le_bytes_len(a@.len() as nat, 2);
            lemma_le_round_trip(a@.len() as nat, 2);
            lemma_u32s_bytes_len(a@);
            assert(b.take(2) =~= le_bytes(a@.len() as nat, 2));
            assert(b.skip(2) =~= u32s_bytes(a@));
            lemma_bytes_u32s_inverse(a@);
        },
    }
}

} // verus!
