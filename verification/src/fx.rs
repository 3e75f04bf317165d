//! Signed 16.16 fixed-point scalars.
//!
//! A scalar is an `i64` holding `value * 65536`: sixteen fractional bits,
//! the rest integer bits. One grid cell is one unit, so the smallest
//! representable increment (one raw tick, about 1.5e-5 of a cell) doubles
//! as the ray-penetration epsilon of the traversal.
//!
//! Division and flooring round toward negative infinity, matching the
//! mathematical `/` and `%` of the specifications, so every contract here
//! is an exact integer identity.

use vstd::prelude::*;
use vstd::arithmetic::div_mod::{lemma_fundamental_div_mod, lemma_fundamental_div_mod_converse};

verus! {

/// One grid unit: 2^16 raw ticks.
pub const FX_ONE: i64 = 65536;

/// Largest magnitude accepted for a ray origin component (2^40 raw, about
/// 16.7 million cells).
pub const FX_POS_LIMIT: i64 = 0x100_0000_0000;

/// Largest magnitude accepted for a ray direction component (2^24 raw,
/// 256 cells per unit of `t`).
pub const FX_DIR_LIMIT: i64 = 0x100_0000;

/// Largest accepted travel budget (2^32 raw, 65536 cells).
pub const FX_DIST_LIMIT: i64 = 0x1_0000_0000;

/// Sentinel distance standing for an unbounded `t` interval; larger than
/// any distance the traversal can compute or accept.
pub const T_INF: i64 = 0x7fff_ffff_ffff_ffff;

/// Sign of a scalar: -1, 0 or +1.
pub open spec fn sgn(v: int) -> int {
    if v > 0 {
        1
    } else if v < 0 {
        -1
    } else {
        0
    }
}

/// Flooring division by a positive divisor agrees with negated ceiling
/// division of the negated dividend.
proof fn lemma_floor_div_neg(m: int, d: int)
    requires
        m >= 0,
        d >= 1,
    ensures
        (-m) / d == -((m + d - 1) / d),
{
    let q = (m + d - 1) / d;
    let r = (m + d - 1) % d;
    lemma_fundamental_div_mod(m + d - 1, d);
    assert(m + d - 1 == d * q + r);
    assert(-m == (-q) * d + (d - 1 - r)) by {
        assert(d * q == q * d) by (nonlinear_arith);
        assert((-q) * d == -(q * d)) by (nonlinear_arith);
    }
    lemma_fundamental_div_mod_converse(-m, d, -q, d - 1 - r);
}

/// Nonnegative division by a positive divisor yields a nonnegative,
/// no-larger quotient.
proof fn lemma_div_pos_bounds(m: int, d: int)
    requires
        m >= 0,
        d >= 1,
    ensures
        0 <= m / d <= m,
{
    let q = m / d;
    let r = m % d;
    lemma_fundamental_div_mod(m, d);
    assert(m == d * q + r);
    assert(q >= 0 && d * q >= q) by (nonlinear_arith)
        requires
            d >= 1 && m == d * q + r && 0 <= r < d && m >= 0,
    ;
}

/// Ceiling division of a nonnegative dividend by a positive divisor stays
/// within `[0, m]`.
proof fn lemma_ceil_div_bounds(m: int, d: int)
    requires
        m >= 0,
        d >= 1,
    ensures
        0 <= (m + d - 1) / d <= m,
{
    let q = (m + d - 1) / d;
    let r = (m + d - 1) % d;
    lemma_fundamental_div_mod(m + d - 1, d);
    assert(q >= 0 && q <= m) by (nonlinear_arith)
        requires
            d >= 1 && m >= 0 && m + d - 1 == d * q + r && 0 <= r < d,
    ;
}

/// Sign of a direction component, as the per-axis step of the traversal.
pub fn fx_sign(v: i64) -> (s: i64)
    ensures
        s == sgn(v as int),
{
    if v > 0 {
        1
    } else if v < 0 {
        -1
    } else {
        0
    }
}

/// The fixed-point quotient `num / den` (raw `num * 65536 / den`), rounded
/// toward negative infinity. The divisor must be positive: callers divide
/// by a magnitude they have already checked to be nonzero.
pub fn fx_div(num: i64, den: i64) -> (q: i64)
    requires
        1 <= den,
        -0x2000_0000_0000 <= num <= 0x2000_0000_0000,
    ensures
        q == (num * 65536) / (den as int),
        num >= 0 ==> 0 <= q <= num * 65536,
        num < 0 ==> num * 65536 <= q <= 0,
{
    if num >= 0 {
        let m = (num as u64) * 65536;
        let q = m / (den as u64);
        proof {
            lemma_div_pos_bounds(m as int, den as int);
        }
        q as i64
    } else {
        let m = ((-num) as u64) * 65536;
        let d = den as u64;
        let q = (m + (d - 1)) / d;
        proof {
            lemma_ceil_div_bounds(m as int, d as int);
            lemma_floor_div_neg(m as int, d as int);
            assert(num * 65536 == -(m as int));
        }
        -(q as i64)
    }
}

/// The fixed-point product `a * b` (raw `a * b / 65536`), rounded toward
/// negative infinity.
pub fn fx_mul(a: i64, b: i64) -> (p: i64)
    requires
        -0x7fff_ffff_ffff_ffff <= a,
        -0x7fff_ffff_ffff_ffff <= b,
        -0x4000_0000_0000_0000 <= a * b <= 0x4000_0000_0000_0000,
    ensures
        p == (a * b) / 65536,
{
    let neg = (a < 0) != (b < 0);
    let ma = if a < 0 {
        (-a) as u64
    } else {
        a as u64
    };
    let mb = if b < 0 {
        (-b) as u64
    } else {
        b as u64
    };
    proof {
        assert(ma as int * mb as int <= 0x4000_0000_0000_0000 && (if neg {
            a * b == -(ma as int * mb as int)
        } else {
            a * b == ma as int * mb as int
        })) by (nonlinear_arith)
            requires
                ma == (if a < 0 { -(a as int) } else { a as int }),
                mb == (if b < 0 { -(b as int) } else { b as int }),
                neg == ((a < 0) != (b < 0)),
                -0x4000_0000_0000_0000 <= a * b <= 0x4000_0000_0000_0000,
        ;
    }
    let prod = ma * mb;
    if neg {
        let q = (prod + 65535) / 65536;
        proof {
            lemma_ceil_div_bounds(prod as int, 65536);
            lemma_floor_div_neg(prod as int, 65536);
        }
        -(q as i64)
    } else {
        let q = prod / 65536;
        proof {
            lemma_div_pos_bounds(prod as int, 65536);
        }
        q as i64
    }
}

/// The whole-cell floor of a scalar: raw `v / 65536`, rounded toward
/// negative infinity, so `-1` raw lies in cell `-1`.
pub fn fx_floor(v: i64) -> (f: i64)
    requires
        -0x7fff_ffff_ffff_ffff <= v,
    ensures
        f == (v as int) / 65536,
{
    if v >= 0 {
        let q = (v as u64) / 65536;
        proof {
            lemma_div_pos_bounds(v as int, 65536);
        }
        q as i64
    } else {
        let m = (-v) as u64;
        let q = (m + 65535) / 65536;
        proof {
            lemma_ceil_div_bounds(m as int, 65536);
            lemma_floor_div_neg(m as int, 65536);
        }
        -(q as i64)
    }
}

/// The position of a scalar within its cell: raw `v mod 65536`, always in
/// `[0, 65536)`.
pub fn fx_fract(v: i64) -> (r: i64)
    requires
        -0x7fff_ffff_ffff_ffff <= v,
    ensures
        r == (v as int) % 65536,
        0 <= r < 65536,
{
    let f = fx_floor(v);
    proof {
        lemma_fundamental_div_mod(v as int, 65536);
    }
    v - 65536 * f
}

/// The scalar for a whole number of cells.
pub fn fx_from_int(i: i32) -> (v: i64)
    ensures
        v == i * 65536,
{
    (i as i64) * 65536
}

} // verus!
