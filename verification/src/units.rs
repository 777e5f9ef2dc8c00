//! The fixed-point number scale shared by the whole simulation, and the
//! clamp that keeps heritable trait values inside the unit interval.

use vstd::prelude::*;

verus! {

/// Fixed-point steps per whole unit: a trait value of one whole unit
/// (the top of the `[0, 1]` trait range) is stored as `SCALE`.
pub const SCALE: i64 = 1_000_000;

/// Half of a whole unit, the midpoint of the trait range.
pub const HALF_SCALE: i64 = 500_000;

/// One and a half units: the largest growth-duration factor.
pub const SCALE_3_2: i64 = 1_500_000;

/// A product of non-negative factors stays under the product of their
/// bounds.
pub proof fn lemma_mul_le(a: int, b: int, ca: int, cb: int)
    by (nonlinear_arith)
    requires
        0 <= a <= ca,
        0 <= b <= cb,
    ensures
        a * b <= ca * cb,
{
}

/// Multiplying both sides of an ordering by a non-negative factor keeps
/// the ordering.
pub proof fn lemma_mul_mono(a: int, b: int, f: int)
    by (nonlinear_arith)
    requires
        a <= b,
        0 <= f,
    ensures
        a * f <= b * f,
{
}

/// A trait value clamped into the unit interval `[0, SCALE]`.
pub open spec fn clamp_unit_spec(x: int) -> int {
    if x < 0 {
        0
    } else if x > SCALE {
        SCALE as int
    } else {
        x
    }
}

/// Clamp a trait value into the unit interval `[0, SCALE]`.
pub fn clamp_unit(x: i64) -> (r: i64)
    ensures
        r == clamp_unit_spec(x as int),
{
    if x < 0 {
        0
    } else if x > SCALE {
        SCALE
    } else {
        x
    }
}

} // verus!
