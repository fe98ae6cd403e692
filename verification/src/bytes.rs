//! Little-endian encoding and decoding of the fixed-width header fields.

use vstd::prelude::*;
use vstd::arithmetic::div_mod::{lemma_fundamental_div_mod, lemma_div_denominator, lemma_small_mod, lemma_div_is_ordered};

verus! {

/// The four bytes of `x`, least significant first.
pub open spec fn u32_le(x: u32) -> Seq<u8> {
    seq![
        (x % 0x100) as u8,
        ((x / 0x100) % 0x100) as u8,
        ((x / 0x1_0000) % 0x100) as u8,
        ((x / 0x100_0000) % 0x100) as u8,
    ]
}

/// The value of four little-endian bytes.
pub open spec fn le_to_u32(b: Seq<u8>) -> u32
    recommends
        b.len() == 4,
{
    (b[0] + b[1] * 0x100 + b[2] * 0x1_0000 + b[3] * 0x100_0000) as u32
}

/// The eight bytes of `x`, least significant first.
pub open spec fn u64_le(x: u64) -> Seq<u8> {
    seq![
        (x % 0x100) as u8,
        ((x / 0x100) % 0x100) as u8,
        ((x / 0x1_0000) % 0x100) as u8,
        ((x / 0x100_0000) % 0x100) as u8,
        ((x / 0x1_0000_0000) % 0x100) as u8,
        ((x / 0x100_0000_0000) % 0x100) as u8,
        ((x / 0x1_0000_0000_0000) % 0x100) as u8,
        ((x / 0x100_0000_0000_0000) % 0x100) as u8,
    ]
}

/// The value of eight little-endian bytes.
pub open spec fn le_to_u64(b: Seq<u8>) -> u64
    recommends
        b.len() == 8,
{
    (b[0] + b[1] * 0x100 + b[2] * 0x1_0000 + b[3] * 0x100_0000 + b[4] * 0x1_0000_0000
        + b[5] * 0x100_0000_0000 + b[6] * 0x1_0000_0000_0000 + b[7] * 0x100_0000_0000_0000) as u64
}

/// Decoding the little-endian bytes of a 32-bit value gives the value back.
pub proof fn lemma_u32_le_round(x: u32)
    ensures
        le_to_u32(u32_le(x)) == x,
{
    let xi = x as int;
    lemma_fundamental_div_mod(xi, 0x100);
    lemma_fundamental_div_mod(xi / 0x100, 0x100);
    lemma_fundamental_div_mod(xi / 0x1_0000, 0x100);
    lemma_div_denominator(xi, 0x100, 0x100);
    lemma_div_denominator(xi, 0x1_0000, 0x100);
    lemma_div_is_ordered(xi, 0xffff_ffff, 0x100_0000);
    assert(0xffff_ffffint / 0x100_0000 == 0xff);
    lemma_small_mod((xi / 0x100_0000) as nat, 0x100);
}

/// Decoding the little-endian bytes of a 64-bit value gives the value back.
pub proof fn lemma_u64_le_round(x: u64)
    ensures
        le_to_u64(u64_le(x)) == x,
{
    let xi = x as int;
    lemma_fundamental_div_mod(xi, 0x100);
    lemma_fundamental_div_mod(xi / 0x100, 0x100);
    lemma_fundamental_div_mod(xi / 0x1_0000, 0x100);
    lemma_fundamental_div_mod(xi / 0x100_0000, 0x100);
    lemma_fundamental_div_mod(xi / 0x1_0000_0000, 0x100);
    lemma_fundamental_div_mod(xi / 0x100_0000_0000, 0x100);
    lemma_fundamental_div_mod(xi / 0x1_0000_0000_0000, 0x100);
    lemma_div_denominator(xi, 0x100, 0x100);
    lemma_div_denominator(xi, 0x1_0000, 0x100);
    lemma_div_denominator(xi, 0x100_0000, 0x100);
    lemma_div_denominator(xi, 0x1_0000_0000, 0x100);
    lemma_div_denominator(xi, 0x100_0000_0000, 0x100);
    lemma_div_denominator(xi, 0x1_0000_0000_0000, 0x100);
    lemma_div_is_ordered(xi, 0xffff_ffff_ffff_ffff, 0x100_0000_0000_0000);
    assert(0xffff_ffff_ffff_ffffint / 0x100_0000_0000_0000 == 0xff);
    lemma_small_mod((xi / 0x100_0000_0000_0000) as nat, 0x100);
}

/// Append the four little-endian bytes of `x` to `v`.
pub fn push_u32_le(v: &mut Vec<u8>, x: u32)
    ensures
        final(v)@ == old(v)@ + u32_le(x),
{
    v.push((x % 0x100) as u8);
    v.push(((x / 0x100) % 0x100) as u8);
    v.push(((x / 0x1_0000) % 0x100) as u8);
    v.push(((x / 0x100_0000) % 0x100) as u8);
    proof {
        assert(v@ =~= old(v)@ + u32_le(x));
    }
}

/// Append the eight little-endian bytes of `x` to `v`.
pub fn push_u64_le(v: &mut Vec<u8>, x: u64)
    ensures
        final(v)@ == old(v)@ + u64_le(x),
{
    v.push((x % 0x100) as u8);
    v.push(((x / 0x100) % 0x100) as u8);
    v.push(((x / 0x1_0000) % 0x100) as u8);
    v.push(((x / 0x100_0000) % 0x100) as u8);
    v.push(((x / 0x1_0000_0000) % 0x100) as u8);
    v.push(((x / 0x100_0000_0000) % 0x100) as u8);
    v.push(((x / 0x1_0000_0000_0000) % 0x100) as u8);
    v.push(((x / 0x100_0000_0000_0000) % 0x100) as u8);
    proof {
        assert(v@ =~= old(v)@ + u64_le(x));
    }
}

/// Read the 32-bit little-endian value stored at `v[i..i+4]`.
pub fn read_u32_le(v: &Vec<u8>, i: usize) -> (r: u32)
    requires
        i + 4 <= v@.len(),
    ensures
        r == le_to_u32(v@.subrange(i as int, i as int + 4)),
{
    // binds the length so the index arithmetic below is known in range
    let _n = v.len();
    let b0 = v[i] as u32;
    let b1 = v[i + 1] as u32;
    let b2 = v[i + 2] as u32;
    let b3 = v[i + 3] as u32;
    b0 + b1 * 0x100 + b2 * 0x1_0000 + b3 * 0x100_0000
}

/// Read the 64-bit little-endian value stored at `v[i..i+8]`.
pub fn read_u64_le(v: &Vec<u8>, i: usize) -> (r: u64)
    requires
        i + 8 <= v@.len(),
    ensures
        r == le_to_u64(v@.subrange(i as int, i as int + 8)),
{
    // binds the length so the index arithmetic below is known in range
    let _n = v.len();
    let b0 = v[i] as u64;
    let b1 = v[i + 1] as u64;
    let b2 = v[i + 2] as u64;
    let b3 = v[i + 3] as u64;
    let b4 = v[i + 4] as u64;
    let b5 = v[i + 5] as u64;
    let b6 = v[i + 6] as u64;
    let b7 = v[i + 7] as u64;
    b0 + b1 * 0x100 + b2 * 0x1_0000 + b3 * 0x100_0000 + b4 * 0x1_0000_0000 + b5 * 0x100_0000_0000
        + b6 * 0x1_0000_0000_0000 + b7 * 0x100_0000_0000_0000
}

} // verus!
