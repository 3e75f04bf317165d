//! Morton (Z-order) encoding for 6-bit grid coordinates.
//!
//! `morton6` spreads the low six bits of a coordinate so that bit `i`
//! lands on bit `3*i`; `morton6_3` interleaves three such coordinates into
//! one code with X on bits 0, 3, 6, ..., Y one higher and Z two higher.

use vstd::prelude::*;

verus! {

/// Bit `i` of `v`.
pub open spec fn u32_bit(v: u32, i: u32) -> bool {
    (v >> i) & 1 == 1
}

/// The mask-and-shift cascade `morton6` computes.
pub open spec fn spec_morton6(v: u32) -> u32 {
    let step1 = (v | (v << 6u32)) & 0b0000111000000111u32;
    let step2 = (step1 | (step1 << 2u32)) & 0b0011001000011001u32;
    (step2 | (step2 << 2u32)) & 0b1001001001001001u32
}

/// The interleaving of three spread coordinates.
pub open spec fn spec_morton6_3(x: u32, y: u32, z: u32) -> u32 {
    spec_morton6(x) | (spec_morton6(y) << 1u32) | (spec_morton6(z) << 2u32)
}

/// For a coordinate below 64, bit `i` of the input lands on bit `3*i` of
/// the spread code.
pub proof fn lemma_morton6_bit(v: u32, i: u32)
    requires
        v < 64,
        i < 6,
    ensures
        u32_bit(spec_morton6(v), (3 * i) as u32) == u32_bit(v, i),
{
    if i == 0 {
        assert(u32_bit(spec_morton6(v), 0) == u32_bit(v, 0)) by (bit_vector)
            requires v < 64,
        ;
    } else if i == 1 {
        assert(u32_bit(spec_morton6(v), 3) == u32_bit(v, 1)) by (bit_vector)
            requires v < 64,
        ;
    } else if i == 2 {
        assert(u32_bit(spec_morton6(v), 6) == u32_bit(v, 2)) by (bit_vector)
            requires v < 64,
        ;
    } else if i == 3 {
        assert(u32_bit(spec_morton6(v), 9) == u32_bit(v, 3)) by (bit_vector)
            requires v < 64,
        ;
    } else if i == 4 {
        assert(u32_bit(spec_morton6(v), 12) == u32_bit(v, 4)) by (bit_vector)
            requires v < 64,
        ;
    } else {
        assert(u32_bit(spec_morton6(v), 15) == u32_bit(v, 5)) by (bit_vector)
            requires v < 64,
        ;
    }
}

/// Every bit of the spread code off the stride (or at 18 and above) is
/// clear, whatever the input holds there.
pub proof fn lemma_morton6_gap(v: u32, j: u32)
    by (bit_vector)
    requires
        j < 32,
        j % 3 != 0 || j >= 18,
    ensures
        !u32_bit(spec_morton6(v), j),
{
}

/// In the interleaved code, bit `i` of `x` sits at `3*i`, of `y` at
/// `3*i + 1`, of `z` at `3*i + 2`.
pub proof fn lemma_morton6_3_bits(x: u32, y: u32, z: u32, i: u32)
    requires
        x < 64,
        y < 64,
        z < 64,
        i < 6,
    ensures
        u32_bit(spec_morton6_3(x, y, z), (3 * i) as u32) == u32_bit(x, i),
        u32_bit(spec_morton6_3(x, y, z), (3 * i + 1) as u32) == u32_bit(y, i),
        u32_bit(spec_morton6_3(x, y, z), (3 * i + 2) as u32) == u32_bit(z, i),
{
    if i == 0 {
        assert(u32_bit(spec_morton6_3(x, y, z), 0) == u32_bit(x, 0) && u32_bit(
            spec_morton6_3(x, y, z),
            1,
        ) == u32_bit(y, 0) && u32_bit(spec_morton6_3(x, y, z), 2) == u32_bit(z, 0))
            by (bit_vector)
            requires x < 64 && y < 64 && z < 64,
        ;
    } else if i == 1 {
        assert(u32_bit(spec_morton6_3(x, y, z), 3) == u32_bit(x, 1) && u32_bit(
            spec_morton6_3(x, y, z),
            4,
        ) == u32_bit(y, 1) && u32_bit(spec_morton6_3(x, y, z), 5) == u32_bit(z, 1))
            by (bit_vector)
            requires x < 64 && y < 64 && z < 64,
        ;
    } else if i == 2 {
        assert(u32_bit(spec_morton6_3(x, y, z), 6) == u32_bit(x, 2) && u32_bit(
            spec_morton6_3(x, y, z),
            7,
        ) == u32_bit(y, 2) && u32_bit(spec_morton6_3(x, y, z), 8) == u32_bit(z, 2))
            by (bit_vector)
            requires x < 64 && y < 64 && z < 64,
        ;
    } else if i == 3 {
        assert(u32_bit(spec_morton6_3(x, y, z), 9) == u32_bit(x, 3) && u32_bit(
            spec_morton6_3(x, y, z),
            10,
        ) == u32_bit(y, 3) && u32_bit(spec_morton6_3(x, y, z), 11) == u32_bit(z, 3))
            by (bit_vector)
            requires x < 64 && y < 64 && z < 64,
        ;
    } else if i == 4 {
        assert(u32_bit(spec_morton6_3(x, y, z), 12) == u32_bit(x, 4) && u32_bit(
            spec_morton6_3(x, y, z),
            13,
        ) == u32_bit(y, 4) && u32_bit(spec_morton6_3(x, y, z), 14) == u32_bit(z, 4))
            by (bit_vector)
            requires x < 64 && y < 64 && z < 64,
        ;
    } else {
        assert(u32_bit(spec_morton6_3(x, y, z), 15) == u32_bit(x, 5) && u32_bit(
            spec_morton6_3(x, y, z),
            16,
        ) == u32_bit(y, 5) && u32_bit(spec_morton6_3(x, y, z), 17) == u32_bit(z, 5))
            by (bit_vector)
            requires x < 64 && y < 64 && z < 64,
        ;
    }
}

/// Spread a coordinate's low six bits three positions apart (see
/// `lemma_morton6_bit` and `lemma_morton6_gap` for the per-bit meaning of
/// the code when the coordinate is below 64).
pub fn morton6(index: u32) -> (r: u32)
    ensures
        r == spec_morton6(index),
{
    let step1 = (index | (index << 6u32)) & 0b0000111000000111;
    let step2 = (step1 | (step1 << 2u32)) & 0b0011001000011001;
    (step2 | (step2 << 2u32)) & 0b1001001001001001
}

/// Interleave three 6-bit coordinates into one Morton code (see
/// `lemma_morton6_3_bits` for the per-bit meaning).
pub fn morton6_3(x: u32, y: u32, z: u32) -> (r: u32)
    ensures
        r == spec_morton6_3(x, y, z),
{
    morton6(x) | (morton6(y) << 1u32) | (morton6(z) << 2u32)
}

} // verus!
