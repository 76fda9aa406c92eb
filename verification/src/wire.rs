//! Little-endian byte layout for the fixed-width wire types.
//!
//! The external binary format is little-endian only; every fixed-width
//! number in a metadata blob or a value buffer is laid out by `le_bytes`.

use vstd::prelude::*;
use vstd::arithmetic::div_mod::lemma_fundamental_div_mod;
use vstd::arithmetic::div_mod::lemma_multiply_divide_lt;
use vstd::arithmetic::power::pow;

verus! {

/// The `n` little-endian bytes of `x`, least significant byte first.
pub open spec fn le_bytes(x: nat, n: nat) -> Seq<u8>
    decreases n,
{
    if n == 0 {
        Seq::empty()
    } else {
        seq![(x % 256) as u8] + le_bytes(x / 256, (n - 1) as nat)
    }
}

/// The value read back from a little-endian byte sequence.
pub open spec fn le_val(b: Seq<u8>) -> nat
    decreases b.len(),
{
    if b.len() == 0 {
        0
    } else {
        b[0] as nat + 256 * le_val(b.skip(1))
    }
}

pub proof fn lemma_le_bytes_len(x: nat, n: nat)
    ensures
        le_bytes(x, n).len() == n,
    decreases n,
{
    if n > 0 {
        lemma_le_bytes_len(x / 256, (n - 1) as nat);
    }
}

/// Reading back the little-endian bytes of a value that fits in `n` bytes
/// yields the value itself.
pub proof fn lemma_le_round_trip(x: nat, n: nat)
    requires
        x < pow(256, n),
    ensures
        le_val(le_bytes(x, n)) == x,
    decreases n,
{
    reveal(pow);
    if n == 0 {
        assert(pow(256, 0) == 1);
    } else {
        assert(pow(256, n) == 256 * pow(256, (n - 1) as nat));
        lemma_multiply_divide_lt(x as int, 256, pow(256, (n - 1) as nat));
        lemma_le_round_trip(x / 256, (n - 1) as nat);
        let b = le_bytes(x, n);
        assert(b.skip(1) =~= le_bytes(x / 256, (n - 1) as nat));
        lemma_fundamental_div_mod(x as int, 256);
    }
}

/// Appends the `width` little-endian bytes of `x` to `out`.
pub fn put_le(out: &mut Vec<u8>, x: u64, width: usize)
    ensures
        final(out)@ == old(out)@ + le_bytes(x as nat, width as nat),
{
    let ghost base = old(out)@;
    let mut cur: u64 = x;
    let mut i: usize = 0;
    while i < width
        invariant
            i <= width,
            out@.len() == base.len() + i,
            out@.take(base.len() as int) == base,
            le_bytes(x as nat, width as nat) == out@.skip(base.len() as int) + le_bytes(
                cur as nat,
                (width - i) as nat,
            ),
        decreases width - i,
    {
        let ghost pre = out@;
        let byte: u8 = (cur % 256) as u8;
        out.push(byte);
        proof {
            assert(le_bytes(cur as nat, (width - i) as nat) == seq![byte] + le_bytes(
                cur as nat / 256,
                (width - i - 1) as nat,
            ));
            assert(out@.take(base.len() as int) =~= base);
            assert(out@.skip(base.len() as int) =~= pre.skip(base.len() as int) + seq![byte]);
            assert(pre.skip(base.len() as int) + le_bytes(cur as nat, (width - i) as nat)
                =~= out@.skip(base.len() as int) + le_bytes(cur as nat / 256, (width - i - 1) as nat));
        }
        cur = cur / 256;
        i += 1;
    }
    proof {
        assert(le_bytes(cur as nat, 0) =~= Seq::empty());
        assert(out@ =~= base + le_bytes(x as nat, width as nat));
    }
}

} // verus!

verus! {

/// Re-serializing the value read from a byte sequence reproduces the bytes.
pub proof fn lemma_le_bytes_of_le_val(b: Seq<u8>)
    ensures
        le_bytes(le_val(b), b.len() as nat) == b,
    decreases b.len(),
{
    if b.len() > 0 {
        lemma_le_bytes_of_le_val(b.skip(1));
        let x = le_val(b);
        vstd::arithmetic::div_mod::lemma_fundamental_div_mod_converse(
            x as int,
            256,
            le_val(b.skip(1)) as int,
            b[0] as int,
        );
        assert(x % 256 == b[0] as nat);
        assert(x / 256 == le_val(b.skip(1)));
        assert(le_bytes(x, b.len() as nat) =~= b);
    } else {
        assert(le_bytes(0, 0) =~= b);
    }
}

} // verus!
