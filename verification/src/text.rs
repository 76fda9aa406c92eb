//! UTF-16 text layout.
//!
//! Provider, event and field names travel inside metadata blobs as
//! null-terminated little-endian UTF-16; string field values use the same
//! encoding. `utf16_decode` is the mathematical inverse used to state the
//! round-trip law.

use vstd::prelude::*;
use vstd::string::StrSliceExecFns;
use vstd::arithmetic::div_mod::lemma_fundamental_div_mod;
use vstd::arithmetic::div_mod::lemma_multiply_divide_lt;
use crate::wire::le_bytes;
use crate::wire::lemma_le_bytes_len;
use crate::wire::put_le;

verus! {

/// The UTF-16 code units of one character: one unit below U+10000,
/// otherwise a surrogate pair.
pub open spec fn char_units(c: char) -> Seq<u16> {
    let v = c as u32;
    if v < 0x10000 {
        seq![v as u16]
    } else {
        seq![
            (0xD800 + (v - 0x10000) / 0x400) as u16,
            (0xDC00 + (v - 0x10000) % 0x400) as u16,
        ]
    }
}

/// The UTF-16 code units of a character sequence.
pub open spec fn utf16_units(s: Seq<char>) -> Seq<u16>
    decreases s.len(),
{
    if s.len() == 0 {
        Seq::empty()
    } else {
        char_units(s[0]) + utf16_units(s.skip(1))
    }
}

/// Decodes UTF-16 code units back to characters; `None` on a lone or
/// misordered surrogate.
pub open spec fn utf16_decode(u: Seq<u16>) -> Option<Seq<char>>
    decreases u.len(),
{
    if u.len() == 0 {
        Some(Seq::empty())
    } else if u[0] < 0xD800 || u[0] >= 0xE000 {
        match utf16_decode(u.skip(1)) {
            Some(rest) => Some(seq![(u[0] as u32) as char] + rest),
            None => None,
        }
    } else if u[0] < 0xDC00 && u.len() >= 2 && 0xDC00 <= u[1] < 0xE000 {
        match utf16_decode(u.skip(2)) {
            Some(rest) => Some(
                seq![((0x10000 + (u[0] - 0xD800) * 0x400 + (u[1] - 0xDC00)) as u32) as char] + rest,
            ),
            None => None,
        }
    } else {
        None
    }
}

pub proof fn lemma_utf16_units_concat(a: Seq<char>, b: Seq<char>)
    ensures
        utf16_units(a + b) == utf16_units(a) + utf16_units(b),
    decreases a.len(),
{
    if a.len() == 0 {
        assert(a + b =~= b);
        assert(utf16_units(a) + utf16_units(b) =~= utf16_units(b));
    } else {
        assert((a + b).skip(1) =~= a.skip(1) + b);
        lemma_utf16_units_concat(a.skip(1), b);
        assert(utf16_units(a + b) =~= utf16_units(a) + utf16_units(b));
    }
}

pub proof fn lemma_utf16_units_snoc(s: Seq<char>, i: int)
    requires
        0 <= i < s.len(),
    ensures
        utf16_units(s.take(i + 1)) == utf16_units(s.take(i)) + char_units(s[i]),
{
    assert(s.take(i + 1) =~= s.take(i) + seq![s[i]]);
    lemma_utf16_units_concat(s.take(i), seq![s[i]]);
    let one = seq![s[i]];
    assert(one.skip(1) =~= Seq::<char>::empty());
    assert(utf16_units(one) == char_units(one[0]) + utf16_units(one.skip(1)));
    assert(utf16_units(one.skip(1)) == Seq::<u16>::empty());
    assert(utf16_units(one) =~= char_units(s[i]));
}

/// A character takes one or two code units.
pub proof fn lemma_utf16_units_len(s: Seq<char>)
    ensures
        s.len() <= utf16_units(s).len() <= 2 * s.len(),
    decreases s.len(),
{
    if s.len() > 0 {
        lemma_utf16_units_len(s.skip(1));
    }
}

/// Decoding one character's code units in front of an already-decodable
/// tail prepends exactly that character.
proof fn lemma_char_units_decode(c: char, tail_units: Seq<u16>, tail: Seq<char>)
    requires
        utf16_decode(tail_units) == Some(tail),
    ensures
        utf16_decode(char_units(c) + tail_units) == Some(seq![c] + tail),
{
    let v = c as u32;
    let u = char_units(c) + tail_units;
    vstd::utf8::char_is_scalar(c);
    if v < 0x10000 {
        assert(u[0] == v as u16);
        assert(u.skip(1) =~= tail_units);
        assert((u[0] as u32) as char == c);
    } else {
        let d = (v - 0x10000) as int;
        assert(d / 0x400 < 0x400) by {
            lemma_multiply_divide_lt(d, 0x400, 0x400);
        }
        assert(0 <= d / 0x400) by {
            vstd::arithmetic::div_mod::lemma_div_pos_is_pos(d, 0x400);
        }
        let hi = (0xD800 + d / 0x400) as u16;
        let lo = (0xDC00 + d % 0x400) as u16;
        assert(u[0] == hi && u[1] == lo);
        assert(u.skip(2) =~= tail_units);
        lemma_fundamental_div_mod(d, 0x400);
        assert(0x10000 + (hi - 0xD800) * 0x400 + (lo - 0xDC00) == v);
        assert((0x10000 + (u[0] - 0xD800) * 0x400 + (u[1] - 0xDC00)) as u32 == v);
        assert(((0x10000 + (u[0] - 0xD800) * 0x400 + (u[1] - 0xDC00)) as u32) as char == c);
    }
}

/// Law: decoding the UTF-16 encoding of any character sequence yields the
/// sequence itself.
pub proof fn lemma_utf16_round_trip(s: Seq<char>)
    ensures
        utf16_decode(utf16_units(s)) == Some(s),
    decreases s.len(),
{
    if s.len() == 0 {
    } else {
        lemma_utf16_round_trip(s.skip(1));
        lemma_char_units_decode(s[0], utf16_units(s.skip(1)), s.skip(1));
        assert(utf16_units(s) == char_units(s[0]) + utf16_units(s.skip(1)));
        assert(seq![s[0]] + s.skip(1) =~= s);
    }
}

/// The little-endian bytes of a sequence of UTF-16 code units.
pub open spec fn units_bytes(u: Seq<u16>) -> Seq<u8>
    decreases u.len(),
{
    if u.len() == 0 {
        Seq::empty()
    } else {
        le_bytes(u[0] as nat, 2) + units_bytes(u.skip(1))
    }
}

/// The bytes of a null-terminated little-endian UTF-16 string, as the
/// metadata grammar stores names.
pub open spec fn utf16z_bytes(s: Seq<char>) -> Seq<u8> {
    units_bytes(utf16_units(s).push(0u16))
}

pub proof fn lemma_units_bytes_snoc(u: Seq<u16>, x: u16)
    ensures
        units_bytes(u.push(x)) == units_bytes(u) + le_bytes(x as nat, 2),
    decreases u.len(),
{
    if u.len() == 0 {
        assert(u.push(x).skip(1) =~= Seq::<u16>::empty());
        assert(u.push(x)[0] == x);
        assert(units_bytes(u.push(x)) == le_bytes(x as nat, 2) + units_bytes(u.push(x).skip(1)));
        assert(units_bytes(u.push(x)) =~= le_bytes(x as nat, 2));
        assert(units_bytes(u) + le_bytes(x as nat, 2) =~= le_bytes(x as nat, 2));
    } else {
        assert(u.push(x).skip(1) =~= u.skip(1).push(x));
        lemma_units_bytes_snoc(u.skip(1), x);
        assert(units_bytes(u.push(x)) =~= units_bytes(u) + le_bytes(x as nat, 2));
    }
}

pub proof fn lemma_units_bytes_len(u: Seq<u16>)
    ensures
        units_bytes(u).len() == 2 * u.len(),
    decreases u.len(),
{
    if u.len() > 0 {
        lemma_le_bytes_len(u[0] as nat, 2);
        lemma_units_bytes_len(u.skip(1));
    }
}

/// The null-terminated encoding of `s` takes between `2 * len + 2` and
/// `4 * len + 2` bytes.
pub proof fn lemma_utf16z_bytes_len(s: Seq<char>)
    ensures
        2 * s.len() + 2 <= utf16z_bytes(s).len() <= 4 * s.len() + 2,
{
    lemma_utf16_units_len(s);
    lemma_units_bytes_len(utf16_units(s).push(0u16));
}

/// Encodes a string as UTF-16 code units.
pub fn encode_utf16_units(s: &str) -> (r: Vec<u16>)
    ensures
        r@ == utf16_units(s@),
{
    let n = s.unicode_len();
    let mut out: Vec<u16> = Vec::new();
    let mut i: usize = 0;
    while i < n
        invariant
            i <= n,
            n == s@.len(),
            out@ == utf16_units(s@.take(i as int)),
        decreases n - i,
    {
        let c = s.get_char(i);
        let v = c as u32;
        if v < 0x10000 {
            out.push(v as u16);
        } else {
            let d = v - 0x10000;
            proof {
                lemma_multiply_divide_lt(d as int, 0x400, 0x400);
            }
            out.push((0xD800 + d / 0x400) as u16);
            out.push((0xDC00 + d % 0x400) as u16);
        }
        proof {
            lemma_utf16_units_snoc(s@, i as int);
            assert(out@ =~= utf16_units(s@.take(i as int + 1)));
        }
        i += 1;
    }
    proof {
        assert(s@.take(n as int) =~= s@);
    }
    out
}

/// Appends the little-endian UTF-16 encoding of `s` to `out`, without a
/// terminator.
pub fn put_utf16(out: &mut Vec<u8>, s: &str)
    ensures
        final(out)@ == old(out)@ + units_bytes(utf16_units(s@)),
{
    let units = encode_utf16_units(s);
    let mut j: usize = 0;
    while j < units.len()
        invariant
            j <= units@.len(),
            units@ == utf16_units(s@),
            out@ == old(out)@ + units_bytes(units@.take(j as int)),
        decreases units@.len() - j,
    {
        put_le(out, units[j] as u64, 2);
        proof {
            assert(units@.take(j as int + 1) =~= units@.take(j as int).push(units@[j as int]));
            lemma_units_bytes_snoc(units@.take(j as int), units@[j as int]);
        }
        j += 1;
    }
    proof {
        assert(units@.take(units@.len() as int) =~= units@);
    }
}

/// Appends the null-terminated little-endian UTF-16 encoding of `s` to `out`.
pub fn put_utf16z(out: &mut Vec<u8>, s: &str)
    ensures
        final(out)@ == old(out)@ + utf16z_bytes(s@),
{
    put_utf16(out, s);
    put_le(out, 0, 2);
    proof {
        lemma_units_bytes_snoc(utf16_units(s@), 0u16);
        assert(out@ =~= old(out)@ + utf16z_bytes(s@));
    }
}

} // verus!
