use vstd::prelude::*;

verus! {

/// Every continuous quantity of the simulation (lengths, angles, forces,
/// rates, action intensities, time steps) is a fixed-point number: an `i64`
/// counting millionths of the unit. `ONE` is the value 1.0.
pub const ONE: i64 = 1_000_000;

/// Largest magnitude a well-formed quantity may take (one million units).
/// Keeping every stored quantity below it leaves room for the products the
/// vehicle model forms without overflowing 128-bit intermediates.
pub const LIMIT: i64 = 1_000_000_000_000;

/// `x` lies within the representable range of simulation quantities.
pub open spec fn in_range(x: int) -> bool {
    -LIMIT <= x <= LIMIT
}

/// `x` clamped into `[lo, hi]`.
pub open spec fn clamp_spec(x: int, lo: int, hi: int) -> int {
    if x < lo {
        lo
    } else if x > hi {
        hi
    } else {
        x
    }
}

/// Clamps `x` into `[lo, hi]`.
pub fn clamp(x: i128, lo: i64, hi: i64) -> (r: i64)
    requires
        lo <= hi,
    ensures
        r == clamp_spec(x as int, lo as int, hi as int),
{
    if x < lo as i128 {
        lo
    } else if x > hi as i128 {
        hi
    } else {
        x as i64
    }
}

/// `a * b` in fixed point, rounded toward zero.
pub open spec fn fixed_mul_spec(a: int, b: int) -> int {
    if a * b >= 0 {
        (a * b) / (ONE as int)
    } else {
        -((-(a * b)) / (ONE as int))
    }
}

/// Fixed-point product of two in-range quantities, rounded toward zero.
pub fn fixed_mul(a: i64, b: i64) -> (r: i128)
    requires
        in_range(a as int),
        in_range(b as int),
    ensures
        r == fixed_mul_spec(a as int, b as int),
        -1_000_000_000_000_000_000 <= r <= 1_000_000_000_000_000_000,
{
    assert(-1_000_000_000_000_000_000_000_000 <= a * b <= 1_000_000_000_000_000_000_000_000)
        by (nonlinear_arith)
        requires
            in_range(a as int),
            in_range(b as int),
    ;
    let p: i128 = a as i128 * b as i128;
    if p >= 0 {
        let q: i128 = p / (ONE as i128);
        assert(q <= 1_000_000_000_000_000_000) by (nonlinear_arith)
            requires
                q == p / 1_000_000,
                p <= 1_000_000_000_000_000_000_000_000,
                p >= 0,
        ;
        q
    } else {
        let q: i128 = (-p) / (ONE as i128);
        assert(q <= 1_000_000_000_000_000_000) by (nonlinear_arith)
            requires
                q == (-p) / 1_000_000,
                -p <= 1_000_000_000_000_000_000_000_000,
                p < 0,
        ;
        -q
    }
}

} // verus!

verus! {

/// A fixed-point 3-vector.
#[derive(Debug, Clone, Copy, PartialEq, Eq, Structural)]
pub struct FixedVec3 {
    pub x: i64,
    pub y: i64,
    pub z: i64,
}

impl FixedVec3 {
    pub fn new(x: i64, y: i64, z: i64) -> (r: Self)
        ensures
            r == (FixedVec3 { x, y, z }),
    {
        FixedVec3 { x, y, z }
    }
}

} // verus!
