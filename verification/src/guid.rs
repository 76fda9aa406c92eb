//! Identifier model: 128-bit identifiers for providers and events.
//!
//! An identifier's wire layout is not naive big-endian: the first three
//! fields are little-endian, the trailing eight bytes are kept in order.
//! Identifiers come from a literal parse of the canonical text form, or
//! deterministically from a namespace identifier and a name.

use vstd::prelude::*;
use vstd::string::StrSliceExecFns;
use vstd::string::StringExecFns;
use crate::Error;
use crate::text::units_bytes;
use crate::text::utf16_units;
use crate::text::put_utf16;
use crate::wire::le_bytes;
use crate::wire::le_val;
use crate::wire::lemma_le_bytes_of_le_val;
use crate::wire::put_le;

verus! {

/// A 128-bit identifier with the external format's field layout.
#[derive(Clone, Copy, Debug, PartialEq, Eq)]
pub struct Guid {
    pub data1: u32,
    pub data2: u16,
    pub data3: u16,
    pub data4: [u8; 8],
}

/// The 16 bytes of an identifier as the external format keeps them in
/// memory: the three leading fields little-endian, `data4` verbatim.
pub open spec fn guid_bytes(g: Guid) -> Seq<u8> {
    le_bytes(g.data1 as nat, 4) + le_bytes(g.data2 as nat, 2) + le_bytes(g.data3 as nat, 2)
        + g.data4@
}

proof fn lemma_le_val_2(a: u8, b: u8)
    ensures
        le_val(seq![a, b]) == a as nat + 256 * (b as nat),
{
    let s = seq![a, b];
    assert(s.skip(1) =~= seq![b]);
    assert(seq![b].skip(1) =~= Seq::<u8>::empty());
    assert(le_val(seq![b].skip(1)) == 0);
    assert(le_val(seq![b]) == b as nat);
    assert(le_val(s) == a as nat + 256 * le_val(seq![b]));
}

/// The two little-endian bytes of `a + 256 b` are `[a, b]`.
pub proof fn lemma_le_2(a: u8, b: u8)
    ensures
        le_bytes(a as nat + 256 * (b as nat), 2) == seq![a, b],
{
    lemma_le_val_2(a, b);
    lemma_le_bytes_of_le_val(seq![a, b]);
}

/// The four little-endian bytes of `a + 256 b + 65536 c + 16777216 d`.
pub proof fn lemma_le_4(a: u8, b: u8, c: u8, d: u8)
    ensures
        le_bytes(
            a as nat + 256 * (b as nat) + 65536 * (c as nat) + 16777216 * (d as nat),
            4,
        ) == seq![a, b, c, d],
{
    let s = seq![a, b, c, d];
    assert(s.skip(1) =~= seq![b, c, d]);
    assert(seq![b, c, d].skip(1) =~= seq![c, d]);
    lemma_le_val_2(c, d);
    assert(le_val(seq![b, c, d]) == b as nat + 256 * le_val(seq![c, d]));
    assert(le_val(s) == a as nat + 256 * le_val(seq![b, c, d]));
    lemma_le_bytes_of_le_val(s);
}

impl Guid {
    /// Builds an identifier from its four declared fields.
    pub fn from_fields(data1: u32, data2: u16, data3: u16, data4: [u8; 8]) -> (r: Guid)
        ensures
            r == (Guid { data1, data2, data3, data4 }),
    {
        Guid { data1, data2, data3, data4 }
    }

    /// Appends the 16 wire bytes of this identifier to `out`.
    pub fn put_bytes(&self, out: &mut Vec<u8>)
        ensures
            final(out)@ == old(out)@ + guid_bytes(*self),
    {
        put_le(out, self.data1 as u64, 4);
        put_le(out, self.data2 as u64, 2);
        put_le(out, self.data3 as u64, 2);
        let mut j: usize = 0;
        while j < 8
            invariant
                j <= 8,
                out@ == old(out)@ + le_bytes(self.data1 as nat, 4) + le_bytes(
                    self.data2 as nat,
                    2,
                ) + le_bytes(self.data3 as nat, 2) + self.data4@.take(j as int),
            decreases 8 - j,
        {
            out.push(self.data4[j]);
            proof {
                assert(self.data4@.take(j as int + 1) =~= self.data4@.take(j as int).push(
                    self.data4@[j as int],
                ));
                assert(out@ =~= old(out)@ + le_bytes(self.data1 as nat, 4) + le_bytes(
                    self.data2 as nat,
                    2,
                ) + le_bytes(self.data3 as nat, 2) + self.data4@.take(j as int + 1));
            }
            j += 1;
        }
        proof {
            assert(self.data4@.take(8) =~= self.data4@);
            assert(out@ =~= old(out)@ + guid_bytes(*self));
        }
    }
}

/// Whether `c` is an ASCII hexadecimal digit.
pub open spec fn is_hex_digit(c: char) -> bool {
    let v = c as u32;
    (48 <= v <= 57) || (97 <= v <= 102) || (65 <= v <= 70)
}

/// The value of one hexadecimal digit.
pub open spec fn hex_digit_val(c: char) -> nat {
    let v = c as u32;
    if 48 <= v <= 57 {
        (v - 48) as nat
    } else if 97 <= v <= 102 {
        (v - 87) as nat
    } else {
        (v - 55) as nat
    }
}

/// The value of a most-significant-first hexadecimal digit sequence.
pub open spec fn hex_seq_val(s: Seq<char>) -> nat
    decreases s.len(),
{
    if s.len() == 0 {
        0
    } else {
        hex_seq_val(s.drop_last()) * 16 + hex_digit_val(s.last())
    }
}

fn hex_digit(c: char) -> (r: Option<u8>)
    ensures
        r is Some <==> is_hex_digit(c),
        r is Some ==> r->Some_0 as nat == hex_digit_val(c) && r->Some_0 < 16,
{
    let v = c as u32;
    if 48 <= v && v <= 57 {
        Some((v - 48) as u8)
    } else if 97 <= v && v <= 102 {
        Some((v - 87) as u8)
    } else if 65 <= v && v <= 70 {
        Some((v - 55) as u8)
    } else {
        None
    }
}

proof fn lemma_hex_pair(t: Seq<char>)
    requires
        t.len() == 2,
    ensures
        hex_seq_val(t) == hex_digit_val(t[0]) * 16 + hex_digit_val(t[1]),
{
    assert(t.drop_last() =~= seq![t[0]]);
    assert(seq![t[0]].drop_last() =~= Seq::<char>::empty());
    assert(hex_seq_val(seq![t[0]]) == hex_seq_val(seq![t[0]].drop_last()) * 16 + hex_digit_val(
        seq![t[0]].last(),
    ));
    assert(hex_seq_val(seq![t[0]].drop_last()) == 0);
    assert(hex_seq_val(seq![t[0]]) == hex_digit_val(t[0]));
}

/// Reads the byte written as two hexadecimal digits at `i`.
fn read_hex_byte(s: &str, i: usize) -> (r: Option<u8>)
    requires
        i + 2 <= s@.len(),
        i + 2 <= usize::MAX,
    ensures
        r is Some <==> is_hex_digit(s@[i as int]) && is_hex_digit(s@[i as int + 1]),
        r is Some ==> r->Some_0 as nat == hex_seq_val(s@.subrange(i as int, i as int + 2)),
{
    let c0 = s.get_char(i);
    let c1 = s.get_char(i + 1);
    match (hex_digit(c0), hex_digit(c1)) {
        (Some(h), Some(l)) => {
            proof {
                let t = s@.subrange(i as int, i as int + 2);
                assert(t =~= seq![s@[i as int], s@[i as int + 1]]);
                lemma_hex_pair(t);
            }
            Some(h * 16 + l)
        },
        _ => None,
    }
}

/// Whether a 36-character identifier body is well-formed: four dashes in
/// their fixed places, hexadecimal digits everywhere else.
pub open spec fn guid_core_valid(t: Seq<char>) -> bool {
    &&& t.len() == 36
    &&& t[8] == '-'
    &&& t[13] == '-'
    &&& t[18] == '-'
    &&& t[23] == '-'
    &&& forall|i: int|
        0 <= i < 36 && i != 8 && i != 13 && i != 18 && i != 23 ==> is_hex_digit(#[trigger] t[i])
}

/// Whether identifier text is well-formed, with or without braces.
pub open spec fn guid_text_valid(t: Seq<char>) -> bool {
    if t.len() == 38 {
        t[0] == '{' && t[37] == '}' && guid_core_valid(t.subrange(1, 37))
    } else {
        guid_core_valid(t)
    }
}

/// The 36-character identifier body, braces stripped.
pub open spec fn guid_core_of(t: Seq<char>) -> Seq<char> {
    if t.len() == 38 {
        t.subrange(1, 37)
    } else {
        t
    }
}

/// The value of the two hexadecimal digits at `i`.
pub open spec fn pair_val(t: Seq<char>, i: int) -> nat {
    hex_seq_val(t.subrange(i, i + 2))
}

/// The identifier denoted by a well-formed 36-character body.
pub open spec fn guid_of_core(t: Seq<char>) -> Guid {
    Guid {
        data1: (pair_val(t, 0) * 16777216 + pair_val(t, 2) * 65536 + pair_val(t, 4) * 256
            + pair_val(t, 6)) as u32,
        data2: (pair_val(t, 9) * 256 + pair_val(t, 11)) as u16,
        data3: (pair_val(t, 14) * 256 + pair_val(t, 16)) as u16,
        data4: [
            pair_val(t, 19) as u8,
            pair_val(t, 21) as u8,
            pair_val(t, 24) as u8,
            pair_val(t, 26) as u8,
            pair_val(t, 28) as u8,
            pair_val(t, 30) as u8,
            pair_val(t, 32) as u8,
            pair_val(t, 34) as u8,
        ],
    }
}

impl Guid {
    /// Parses canonical identifier text, with or without surrounding braces.
    pub fn parse(s: &str) -> (r: Result<Guid, Error>)
        ensures
            r is Ok <==> guid_text_valid(s@),
            r is Ok ==> r->Ok_0 == guid_of_core(guid_core_of(s@)),
            r is Err ==> r->Err_0 == Error::FormatError,
    {
        let n = s.unicode_len();
        let off: usize;
        if n == 36 {
            off = 0;
        } else if n == 38 && s.get_char(0) == '{' && s.get_char(37) == '}' {
            off = 1;
        } else {
            return Err(Error::FormatError);
        }
        let ghost t = guid_core_of(s@);
        proof {
            assert(forall|i: int| 0 <= i < 36 ==> #[trigger] t[i] == s@[i + off]);
        }
        if !(s.get_char(off + 8) == '-' && s.get_char(off + 13) == '-' && s.get_char(off + 18)
            == '-' && s.get_char(off + 23) == '-') {
            return Err(Error::FormatError);
        }
        let p0 = read_hex_byte(s, off);
        let p1 = read_hex_byte(s, off + 2);
        let p2 = read_hex_byte(s, off + 4);
        let p3 = read_hex_byte(s, off + 6);
        let p4 = read_hex_byte(s, off + 9);
        let p5 = read_hex_byte(s, off + 11);
        let p6 = read_hex_byte(s, off + 14);
        let p7 = read_hex_byte(s, off + 16);
        let p8 = read_hex_byte(s, off + 19);
        let p9 = read_hex_byte(s, off + 21);
        let p10 = read_hex_byte(s, off + 24);
        let p11 = read_hex_byte(s, off + 26);
        let p12 = read_hex_byte(s, off + 28);
        let p13 = read_hex_byte(s, off + 30);
        let p14 = read_hex_byte(s, off + 32);
        let p15 = read_hex_byte(s, off + 34);
        match (p0, p1, p2, p3, p4, p5, p6, p7, p8, p9, p10, p11, p12, p13, p14, p15) {
            (
                Some(b0),
                Some(b1),
                Some(b2),
                Some(b3),
                Some(b4),
                Some(b5),
                Some(b6),
                Some(b7),
                Some(b8),
                Some(b9),
                Some(b10),
                Some(b11),
                Some(b12),
                Some(b13),
                Some(b14),
                Some(b15),
            ) => {
                proof {
                    assert forall|i: int| 0 <= i < 36 && i != 8 && i != 13 && i != 18 && i != 23
                        implies is_hex_digit(#[trigger] t[i]) by {
                        assert(t[i] == s@[i + off]);
                    }
                    assert(guid_core_valid(t));
                    assert(forall|i: int|
                        0 <= i && i + 2 <= 36 ==> #[trigger] t.subrange(i, i + 2) =~= s@.subrange(
                            i + off,
                            i + off + 2,
                        ));
                }
                let data1: u32 = (b0 as u32) * 16777216 + (b1 as u32) * 65536 + (b2 as u32) * 256
                    + (b3 as u32);
                let data2: u16 = (b4 as u16) * 256 + (b5 as u16);
                let data3: u16 = (b6 as u16) * 256 + (b7 as u16);
                let data4: [u8; 8] = [b8, b9, b10, b11, b12, b13, b14, b15];
                let g = Guid { data1, data2, data3, data4 };
                proof {
                    assert(g.data4@ =~= guid_of_core(t).data4@);
                    assert(g == guid_of_core(t));
                }
                Ok(g)
            },
            _ => {
                proof {
                    if guid_text_valid(s@) {
                        assert(guid_core_valid(t));
                        assert(t[0] == s@[0 + off] && t[1] == s@[1 + off] && t[2] == s@[2 + off]
                            && t[3] == s@[3 + off] && t[4] == s@[4 + off] && t[5] == s@[5 + off]
                            && t[6] == s@[6 + off] && t[7] == s@[7 + off]);
                        assert(t[9] == s@[9 + off] && t[10] == s@[10 + off] && t[11] == s@[11 + off]
                            && t[12] == s@[12 + off]);
                        assert(t[14] == s@[14 + off] && t[15] == s@[15 + off] && t[16] == s@[16
                            + off] && t[17] == s@[17 + off]);
                        assert(t[19] == s@[19 + off] && t[20] == s@[20 + off] && t[21] == s@[21
                            + off] && t[22] == s@[22 + off]);
                        assert(t[24] == s@[24 + off] && t[25] == s@[25 + off] && t[26] == s@[26
                            + off] && t[27] == s@[27 + off] && t[28] == s@[28 + off] && t[29]
                            == s@[29 + off] && t[30] == s@[30 + off] && t[31] == s@[31 + off]
                            && t[32] == s@[32 + off] && t[33] == s@[33 + off] && t[34] == s@[34
                            + off] && t[35] == s@[35 + off]);
                        assert(p0 is Some && p1 is Some && p2 is Some && p3 is Some && p4 is Some
                            && p5 is Some && p6 is Some && p7 is Some && p8 is Some && p9 is Some
                            && p10 is Some && p11 is Some && p12 is Some && p13 is Some
                            && p14 is Some && p15 is Some);
                        assert(false);
                    }
                }
                Err(Error::FormatError)
            },
        }
    }
}

/// The canonical lowercase character for one hexadecimal digit value.
pub open spec fn nibble_char(n: u8) -> char {
    if n < 10 {
        ((48 + n) as u8) as char
    } else {
        ((87 + n) as u8) as char
    }
}

/// The two hexadecimal characters of a byte, most significant first.
pub open spec fn hex_byte_chars(b: u8) -> Seq<char> {
    seq![nibble_char(b / 16), nibble_char(b % 16)]
}

/// The four hexadecimal characters of a 16-bit value.
pub open spec fn hex_u16_chars(x: u16) -> Seq<char> {
    hex_byte_chars((x / 256) as u8) + hex_byte_chars((x % 256) as u8)
}

/// The eight hexadecimal characters of a 32-bit value.
pub open spec fn hex_u32_chars(x: u32) -> Seq<char> {
    hex_u16_chars((x / 65536) as u16) + hex_u16_chars((x % 65536) as u16)
}

/// The canonical dashed text form of an identifier, without braces.
pub open spec fn canonical_chars(g: Guid) -> Seq<char> {
    hex_u32_chars(g.data1) + seq!['-'] + hex_u16_chars(g.data2) + seq!['-'] + hex_u16_chars(g.data3)
        + seq!['-'] + hex_byte_chars(g.data4@[0]) + hex_byte_chars(g.data4@[1]) + seq!['-']
        + hex_byte_chars(g.data4@[2]) + hex_byte_chars(g.data4@[3]) + hex_byte_chars(g.data4@[4])
        + hex_byte_chars(g.data4@[5]) + hex_byte_chars(g.data4@[6]) + hex_byte_chars(g.data4@[7])
}

/// Relies on `String::push`: appends exactly the one character.
#[verifier::external_body]
fn push_char(s: &mut String, c: char)
    ensures
        final(s)@ == old(s)@ + seq![c],
{
    s.push(c);
}

fn push_nibble(s: &mut String, n: u8)
    requires
        n < 16,
    ensures
        final(s)@ == old(s)@ + seq![nibble_char(n)],
{
    if n < 10 {
        push_char(s, (48 + n) as char);
    } else {
        push_char(s, (87 + n) as char);
    }
}

fn push_hex_byte(s: &mut String, b: u8)
    ensures
        final(s)@ == old(s)@ + hex_byte_chars(b),
{
    push_nibble(s, b / 16);
    push_nibble(s, b % 16);
    proof {
        assert(old(s)@ + seq![nibble_char(b / 16)] + seq![nibble_char(b % 16)] =~= old(s)@
            + hex_byte_chars(b));
    }
}

fn push_hex_u16(s: &mut String, x: u16)
    ensures
        final(s)@ == old(s)@ + hex_u16_chars(x),
{
    push_hex_byte(s, (x / 256) as u8);
    push_hex_byte(s, (x % 256) as u8);
    proof {
        assert(old(s)@ + hex_byte_chars((x / 256) as u8) + hex_byte_chars((x % 256) as u8) =~= old(
            s,
        )@ + hex_u16_chars(x));
    }
}

impl Guid {
    /// Renders the canonical lowercase dashed text form.
    pub fn to_canonical_string(&self) -> (r: String)
        ensures
            r@ == canonical_chars(*self),
    {
        let mut s = String::new();
        push_hex_u16(&mut s, (self.data1 / 65536) as u16);
        push_hex_u16(&mut s, (self.data1 % 65536) as u16);
        push_char(&mut s, '-');
        push_hex_u16(&mut s, self.data2);
        push_char(&mut s, '-');
        push_hex_u16(&mut s, self.data3);
        push_char(&mut s, '-');
        push_hex_byte(&mut s, self.data4[0]);
        push_hex_byte(&mut s, self.data4[1]);
        push_char(&mut s, '-');
        push_hex_byte(&mut s, self.data4[2]);
        push_hex_byte(&mut s, self.data4[3]);
        push_hex_byte(&mut s, self.data4[4]);
        push_hex_byte(&mut s, self.data4[5]);
        push_hex_byte(&mut s, self.data4[6]);
        push_hex_byte(&mut s, self.data4[7]);
        proof {
            assert(s@ =~= canonical_chars(*self));
        }
        s
    }
}

/// The SHA-1 digest of a byte sequence, named for the contracts; its value
/// is fixed by the outside implementation.
pub uninterp spec fn sha1_of(input: Seq<u8>) -> Seq<u8>;

/// Relies on `sha1::Sha1` through the `Digest` trait: the digest is 20
/// bytes and a function of the input bytes alone.
#[verifier::external_body]
fn sha1_digest(input: &Vec<u8>) -> (r: Vec<u8>)
    ensures
        r@ == sha1_of(input@),
        r@.len() == 20,
{
    let mut h = <sha1::Sha1 as sha1::Digest>::new();
    sha1::Digest::update(&mut h, input.as_slice());
    let out = sha1::Digest::finalize(h);
    out.as_slice().to_vec()
}

/// The hash input for name-based derivation: the namespace identifier's
/// wire bytes followed by the name in little-endian UTF-16.
pub open spec fn name_hash_input(ns: Guid, name: Seq<char>) -> Seq<u8> {
    guid_bytes(ns) + units_bytes(utf16_units(name))
}

/// The wire bytes of the identifier derived from a namespace and a name:
/// the first 16 digest bytes, with the high nibble of byte 7 marking the
/// identifier as name-derived.
pub open spec fn from_name_bytes(ns: Guid, name: Seq<char>) -> Seq<u8> {
    let d = sha1_of(name_hash_input(ns, name));
    d.take(16).update(7, (d[7] & 0x0F) | 0x50)
}

impl Guid {
    /// Derives an identifier from a namespace identifier and a name, by a
    /// fixed hash: the same inputs always yield the same identifier.
    pub fn from_name(namespace: &Guid, name: &str) -> (r: Guid)
        ensures
            guid_bytes(r) == from_name_bytes(*namespace, name@),
    {
        let mut input: Vec<u8> = Vec::new();
        namespace.put_bytes(&mut input);
        put_utf16(&mut input, name);
        let dig = sha1_digest(&input);
        let b7: u8 = (dig[7] & 0x0F) | 0x50;
        let data1: u32 = (dig[0] as u32) + 256 * (dig[1] as u32) + 65536 * (dig[2] as u32)
            + 16777216 * (dig[3] as u32);
        let data2: u16 = (dig[4] as u16) + 256 * (dig[5] as u16);
        let data3: u16 = (dig[6] as u16) + 256 * (b7 as u16);
        let data4: [u8; 8] = [dig[8], dig[9], dig[10], dig[11], dig[12], dig[13], dig[14], dig[15]];
        let g = Guid { data1, data2, data3, data4 };
        proof {
            let d = sha1_of(input@);
            assert(input@ == name_hash_input(*namespace, name@));
            lemma_le_4(d[0] as u8, d[1] as u8, d[2] as u8, d[3] as u8);
            assert(data1 as nat == d[0] as nat + 256 * (d[1] as nat) + 65536 * (d[2] as nat)
                + 16777216 * (d[3] as nat));
            lemma_le_2(d[4] as u8, d[5] as u8);
            lemma_le_2(d[6] as u8, b7);
            assert(guid_bytes(g) =~= from_name_bytes(*namespace, name@));
        }
        g
    }
}

/// Law: name-based identifier derivation is deterministic — the derived
/// wire bytes are a function of the namespace and the name alone, so two
/// derivations from identical inputs are bit-identical.
pub proof fn lemma_from_name_deterministic(ns1: Guid, name1: Seq<char>, ns2: Guid, name2: Seq<char>)
    requires
        ns1 == ns2,
        name1 == name2,
    ensures
        from_name_bytes(ns1, name1) == from_name_bytes(ns2, name2),
{
}

} // verus!

verus! {

proof fn lemma_nibble_char_props(n: u8)
    requires
        n < 16,
    ensures
        is_hex_digit(nibble_char(n)),
        hex_digit_val(nibble_char(n)) == n,
{
}

/// The two characters of a byte are hexadecimal digits denoting the byte.
proof fn lemma_hex_byte_chars_val(b: u8)
    ensures
        hex_byte_chars(b).len() == 2,
        is_hex_digit(hex_byte_chars(b)[0]),
        is_hex_digit(hex_byte_chars(b)[1]),
        hex_seq_val(hex_byte_chars(b)) == b,
{
    lemma_nibble_char_props(b / 16);
    lemma_nibble_char_props(b % 16);
    lemma_hex_pair(hex_byte_chars(b));
    vstd::arithmetic::div_mod::lemma_fundamental_div_mod(b as int, 16);
}

/// The byte written at pair position `k` of the canonical text.
spec fn canonical_byte(g: Guid, k: int) -> u8 {
    if k == 0 {
        ((g.data1 / 65536) as u16 / 256) as u8
    } else if k == 1 {
        ((g.data1 / 65536) as u16 % 256) as u8
    } else if k == 2 {
        ((g.data1 % 65536) as u16 / 256) as u8
    } else if k == 3 {
        ((g.data1 % 65536) as u16 % 256) as u8
    } else if k == 4 {
        (g.data2 / 256) as u8
    } else if k == 5 {
        (g.data2 % 256) as u8
    } else if k == 6 {
        (g.data3 / 256) as u8
    } else if k == 7 {
        (g.data3 % 256) as u8
    } else {
        g.data4@[k - 8]
    }
}

/// The start of pair `k` in the canonical text.
spec fn pair_start(k: int) -> int {
    if k < 4 {
        2 * k
    } else if k < 6 {
        2 * k + 1
    } else if k < 8 {
        2 * k + 2
    } else if k < 10 {
        2 * k + 3
    } else {
        2 * k + 4
    }
}

#[verifier::rlimit(100)]
proof fn lemma_canonical_pairs(g: Guid)
    ensures
        canonical_chars(g).len() == 36,
        canonical_chars(g)[8] == '-' && canonical_chars(g)[13] == '-' && canonical_chars(g)[18]
            == '-' && canonical_chars(g)[23] == '-',
        forall|k: int|
            0 <= k < 16 ==> {
                let t = canonical_chars(g);
                let i = #[trigger] pair_start(k);
                &&& t.subrange(i, i + 2) == hex_byte_chars(canonical_byte(g, k))
                &&& pair_val(t, i) == canonical_byte(g, k)
                &&& is_hex_digit(t[i])
                &&& is_hex_digit(t[i + 1])
            },
{
    let t = canonical_chars(g);
    assert(t.len() == 36);
    assert forall|k: int| 0 <= k < 16 implies {
        let i = #[trigger] pair_start(k);
        &&& t.subrange(i, i + 2) == hex_byte_chars(canonical_byte(g, k))
        &&& pair_val(t, i) == canonical_byte(g, k)
        &&& is_hex_digit(t[i])
        &&& is_hex_digit(t[i + 1])
    } by {
        let i = pair_start(k);
        lemma_hex_byte_chars_val(canonical_byte(g, k));
        if k == 0 {
            assert(t.subrange(pair_start(0), pair_start(0) + 2) =~= hex_byte_chars(canonical_byte(g, 0)));
        }
        if k == 1 {
            assert(t.subrange(pair_start(1), pair_start(1) + 2) =~= hex_byte_chars(canonical_byte(g, 1)));
        }
        if k == 2 {
            assert(t.subrange(pair_start(2), pair_start(2) + 2) =~= hex_byte_chars(canonical_byte(g, 2)));
        }
        if k == 3 {
            assert(t.subrange(pair_start(3), pair_start(3) + 2) =~= hex_byte_chars(canonical_byte(g, 3)));
        }
        if k == 4 {
            assert(t.subrange(pair_start(4), pair_start(4) + 2) =~= hex_byte_chars(canonical_byte(g, 4)));
        }
        if k == 5 {
            assert(t.subrange(pair_start(5), pair_start(5) + 2) =~= hex_byte_chars(canonical_byte(g, 5)));
        }
        if k == 6 {
            assert(t.subrange(pair_start(6), pair_start(6) + 2) =~= hex_byte_chars(canonical_byte(g, 6)));
        }
        if k == 7 {
            assert(t.subrange(pair_start(7), pair_start(7) + 2) =~= hex_byte_chars(canonical_byte(g, 7)));
        }
        if k == 8 {
            assert(t.subrange(pair_start(8), pair_start(8) + 2) =~= hex_byte_chars(canonical_byte(g, 8)));
        }
        if k == 9 {
            assert(t.subrange(pair_start(9), pair_start(9) + 2) =~= hex_byte_chars(canonical_byte(g, 9)));
        }
        if k == 10 {
            assert(t.subrange(pair_start(10), pair_start(10) + 2) =~= hex_byte_chars(canonical_byte(g, 10)));
        }
        if k == 11 {
            assert(t.subrange(pair_start(11), pair_start(11) + 2) =~= hex_byte_chars(canonical_byte(g, 11)));
        }
        if k == 12 {
            assert(t.subrange(pair_start(12), pair_start(12) + 2) =~= hex_byte_chars(canonical_byte(g, 12)));
        }
        if k == 13 {
            assert(t.subrange(pair_start(13), pair_start(13) + 2) =~= hex_byte_chars(canonical_byte(g, 13)));
        }
        if k == 14 {
            assert(t.subrange(pair_start(14), pair_start(14) + 2) =~= hex_byte_chars(canonical_byte(g, 14)));
        }
        if k == 15 {
            assert(t.subrange(pair_start(15), pair_start(15) + 2) =~= hex_byte_chars(canonical_byte(g, 15)));
        }
        assert(t.subrange(i, i + 2) == hex_byte_chars(canonical_byte(g, k)));
        assert(t[i] == t.subrange(i, i + 2)[0]);
        assert(t[i + 1] == t.subrange(i, i + 2)[1]);
    }
}

/// Law: the canonical text of an identifier is well-formed identifier text
/// and parses back to the identifier itself.
#[verifier::rlimit(100)]
pub proof fn lemma_canonical_parse_round_trip(g: Guid)
    ensures
        guid_text_valid(canonical_chars(g)),
        guid_of_core(guid_core_of(canonical_chars(g))) == g,
{
    let t = canonical_chars(g);
    lemma_canonical_pairs(g);
    assert forall|i: int|
        0 <= i < 36 && i != 8 && i != 13 && i != 18 && i != 23 implies is_hex_digit(
        #[trigger] t[i],
    ) by {
        let k: int = if i < 8 {
            i / 2
        } else if i < 13 {
            (i - 1) / 2
        } else if i < 18 {
            (i - 2) / 2
        } else if i < 23 {
            (i - 3) / 2
        } else {
            (i - 4) / 2
        };
        assert(0 <= k < 16 && (pair_start(k) == i || pair_start(k) + 1 == i));
    }
    assert(guid_core_valid(t));
    assert(guid_core_of(t) == t);
    vstd::arithmetic::div_mod::lemma_fundamental_div_mod(g.data1 as int, 65536);
    vstd::arithmetic::div_mod::lemma_fundamental_div_mod((g.data1 / 65536) as int, 256);
    vstd::arithmetic::div_mod::lemma_fundamental_div_mod((g.data1 % 65536) as int, 256);
    vstd::arithmetic::div_mod::lemma_fundamental_div_mod(g.data2 as int, 256);
    vstd::arithmetic::div_mod::lemma_fundamental_div_mod(g.data3 as int, 256);
    let p = guid_of_core(t);
    assert(pair_start(0) == 0 && pair_start(1) == 2 && pair_start(2) == 4 && pair_start(3) == 6
        && pair_start(4) == 9 && pair_start(5) == 11 && pair_start(6) == 14 && pair_start(7) == 16
        && pair_start(8) == 19 && pair_start(9) == 21 && pair_start(10) == 24 && pair_start(11)
        == 26 && pair_start(12) == 28 && pair_start(13) == 30 && pair_start(14) == 32
        && pair_start(15) == 34);
    assert(pair_val(t, 0) == canonical_byte(g, 0) && pair_val(t, 2) == canonical_byte(g, 1)
        && pair_val(t, 4) == canonical_byte(g, 2) && pair_val(t, 6) == canonical_byte(g, 3));
    assert(pair_val(t, 9) == canonical_byte(g, 4) && pair_val(t, 11) == canonical_byte(g, 5));
    assert(pair_val(t, 14) == canonical_byte(g, 6) && pair_val(t, 16) == canonical_byte(g, 7));
    assert(pair_val(t, 19) == canonical_byte(g, 8) && pair_val(t, 21) == canonical_byte(g, 9)
        && pair_val(t, 24) == canonical_byte(g, 10) && pair_val(t, 26) == canonical_byte(g, 11)
        && pair_val(t, 28) == canonical_byte(g, 12) && pair_val(t, 30) == canonical_byte(g, 13)
        && pair_val(t, 32) == canonical_byte(g, 14) && pair_val(t, 34) == canonical_byte(g, 15));
    assert(p.data1 == g.data1);
    assert(p.data2 == g.data2);
    assert(p.data3 == g.data3);
    assert(p.data4@ =~= g.data4@);
    broadcast use vstd::array::axiom_array_ext_equal;

    assert(p.data4 == g.data4);
    assert(p == g);
}

} // verus!
