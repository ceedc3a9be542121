//! Fixed-point arithmetic for screen-space fractions.
//!
//! A screen-space coordinate is a signed count of subunits, where `SCALE`
//! subunits make one unit of normalized screen space (the full screen extent
//! on an axis is one unit).  All arithmetic saturates at `MAX_COORD`
//! subunits in either direction, so every operation is total and every
//! stored coordinate stays in range.

use vstd::prelude::*;

verus! {

/// Number of subunits in one unit of normalized screen space.
pub const SCALE: i64 = 1_000_000;

/// Saturation bound: no screen-space value leaves `[-MAX_COORD, MAX_COORD]`.
pub const MAX_COORD: i64 = 1_000_000_000_000;

/// Whether a value lies inside the saturation range.
pub open spec fn in_range(x: int) -> bool {
    -(MAX_COORD as int) <= x <= MAX_COORD as int
}

/// Saturate a mathematical value into the coordinate range.
pub open spec fn clamped(x: int) -> int {
    if x > MAX_COORD as int {
        MAX_COORD as int
    } else if x < -(MAX_COORD as int) {
        -(MAX_COORD as int)
    } else {
        x
    }
}

/// Division truncating toward zero, for a positive divisor.
pub open spec fn tdiv(x: int, d: int) -> int {
    if x >= 0 {
        x / d
    } else {
        -((-x) / d)
    }
}

/// `a * b / d`, truncated toward zero and saturated.
pub open spec fn muldiv(a: int, b: int, d: int) -> int {
    clamped(tdiv(a * b, d))
}

/// Scale a coordinate by a fraction: `a * (f / SCALE)`.
pub open spec fn scale_mul(a: int, f: int) -> int {
    muldiv(a, f, SCALE as int)
}

/// A pixel count converted to screen space: `n / pixels` of the axis extent.
pub open spec fn px_frac(n: int, pixels: int) -> int {
    muldiv(n, SCALE as int, pixels)
}

proof fn lemma_mag_product(a: int, b: int, ma: int, mb: int, neg: bool)
    requires
        ma == if a >= 0 { a } else { -a },
        mb == if b >= 0 { b } else { -b },
        neg == ((a < 0) != (b < 0)),
    ensures
        a * b == if neg {
            -(ma * mb)
        } else {
            ma * mb
        },
{
    assert(a * b == if neg {
        -(ma * mb)
    } else {
        ma * mb
    }) by (nonlinear_arith)
        requires
            ma == if a >= 0 { a } else { -a },
            mb == if b >= 0 { b } else { -b },
            neg == ((a < 0) != (b < 0)),
    ;
}

proof fn lemma_mul_bound(ma: int, mb: int, cap: int)
    requires
        0 <= ma <= cap,
        0 <= mb <= cap,
        0 <= cap,
    ensures
        0 <= ma * mb <= cap * cap,
{
    assert(0 <= ma * mb <= cap * cap) by (nonlinear_arith)
        requires
            0 <= ma <= cap,
            0 <= mb <= cap,
    ;
}

/// Core saturating multiply-divide: `a * b / d`, truncated toward zero.
pub fn mul_div(a: i64, b: i64, d: i64) -> (r: i64)
    requires
        in_range(a as int),
        in_range(b as int),
        0 < d <= MAX_COORD,
    ensures
        r as int == muldiv(a as int, b as int, d as int),
        in_range(r as int),
{
    let neg: bool = (a < 0) != (b < 0);
    let ma: u64 = if a < 0 {
        (-a) as u64
    } else {
        a as u64
    };
    let mb: u64 = if b < 0 {
        (-b) as u64
    } else {
        b as u64
    };
    proof {
        lemma_mag_product(a as int, b as int, ma as int, mb as int, neg);
        lemma_mul_bound(ma as int, mb as int, MAX_COORD as int);
    }
    let prod: u128 = (ma as u128) * (mb as u128);
    let q: u128 = prod / (d as u128);
    assert(q <= prod);
    let qc: u64 = if q > (MAX_COORD as u128) {
        MAX_COORD as u64
    } else {
        q as u64
    };
    let qi: i64 = qc as i64;
    proof {
        let m = (ma as int) * (mb as int);
        assert(q as int == m / (d as int));
        if neg {
            assert(a as int * b as int == -m);
            assert(tdiv(-m, d as int) == -(m / (d as int)));
        } else {
            assert(a as int * b as int == m);
            assert(tdiv(m, d as int) == m / (d as int));
        }
        assert(qc as int == clamped(q as int));
    }
    if neg {
        -qi
    } else {
        qi
    }
}

/// Saturating addition.
pub fn add_sat(a: i64, b: i64) -> (r: i64)
    requires
        in_range(a as int),
        in_range(b as int),
    ensures
        r as int == clamped(a as int + b as int),
        in_range(r as int),
{
    let s: i64 = a + b;
    if s > MAX_COORD {
        MAX_COORD
    } else if s < -MAX_COORD {
        -MAX_COORD
    } else {
        s
    }
}

/// Saturating subtraction.
pub fn sub_sat(a: i64, b: i64) -> (r: i64)
    requires
        in_range(a as int),
        in_range(b as int),
    ensures
        r as int == clamped(a as int - b as int),
        in_range(r as int),
{
    let s: i64 = a - b;
    if s > MAX_COORD {
        MAX_COORD
    } else if s < -MAX_COORD {
        -MAX_COORD
    } else {
        s
    }
}

/// The nonnegative part of a difference: sizes never go below zero.
pub open spec fn sub_floor(a: int, b: int) -> int {
    if a - b >= 0 {
        a - b
    } else {
        0
    }
}

/// A difference clamped at zero and saturated, as used for shrinking sizes.
pub open spec fn sub_size(a: int, b: int) -> int {
    clamped(sub_floor(a, b))
}

/// Subtraction clamped at zero, as used for shrinking sizes.
pub fn sub_clamp0(a: i64, b: i64) -> (r: i64)
    requires
        in_range(a as int),
        in_range(b as int),
    ensures
        r as int == sub_size(a as int, b as int),
        0 <= r <= MAX_COORD,
{
    let s: i64 = a - b;
    if s < 0 {
        0
    } else if s > MAX_COORD {
        MAX_COORD
    } else {
        s
    }
}

/// Maximum of two values.
pub fn max_i64(a: i64, b: i64) -> (r: i64)
    ensures
        r as int == if a as int >= b as int {
            a as int
        } else {
            b as int
        },
{
    if a >= b {
        a
    } else {
        b
    }
}

/// Minimum of two values.
pub fn min_i64(a: i64, b: i64) -> (r: i64)
    ensures
        r as int == if a as int <= b as int {
            a as int
        } else {
            b as int
        },
{
    if a <= b {
        a
    } else {
        b
    }
}

/// Saturate an arbitrary value into the coordinate range.
pub fn clamp_coord(x: i64) -> (r: i64)
    ensures
        r as int == clamped(x as int),
        in_range(r as int),
{
    if x > MAX_COORD {
        MAX_COORD
    } else if x < -MAX_COORD {
        -MAX_COORD
    } else {
        x
    }
}

/// Euclidean division of a nonnegative coordinate by a positive count.
pub fn div_count(a: i64, n: u64) -> (r: i64)
    requires
        0 <= a <= MAX_COORD,
        n >= 1,
    ensures
        r as int == a as int / n as int,
        0 <= r <= a,
{
    let q: u64 = (a as u64) / n;
    q as i64
}

/// Remainder of a nonnegative coordinate divided by a positive count.
pub fn rem_count(a: i64, n: u64) -> (r: i64)
    requires
        0 <= a <= MAX_COORD,
        n >= 1,
    ensures
        r as int == a as int % n as int,
        0 <= r <= a,
{
    let q: u64 = (a as u64) % n;
    proof {
        if (a as int) < (n as int) {
            vstd::arithmetic::div_mod::lemma_small_mod(a as nat, n as nat);
        }
    }
    q as i64
}

} // verus!
