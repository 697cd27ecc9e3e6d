//! Saturating lattice arithmetic shared by the other modules.

use vstd::prelude::*;

verus! {

/// A point or a displacement on the lattice.
pub type Vector = (i64, i64);

/// The nearest value to `x` that an `i64` coordinate can hold.
pub open spec fn saturate(x: int) -> i64 {
    if x < i64::MIN as int {
        i64::MIN
    } else if x > i64::MAX as int {
        i64::MAX
    } else {
        x as i64
    }
}

/// `point` moved by `offset`, each coordinate saturated.
pub open spec fn translated(point: Vector, offset: (int, int)) -> Vector {
    (saturate(point.0 + offset.0), saturate(point.1 + offset.1))
}

/// Brings a wide intermediate result back to a coordinate.
pub fn saturate_wide(x: i128) -> (r: i64)
    ensures
        r == saturate(x as int),
{
    if x < i64::MIN as i128 {
        i64::MIN
    } else if x > i64::MAX as i128 {
        i64::MAX
    } else {
        x as i64
    }
}

/// `base + offset`, saturated.
pub fn offset_by(base: i64, offset: i64) -> (r: i64)
    ensures
        r == saturate(base + offset),
{
    saturate_wide(base as i128 + offset as i128)
}

/// `point` moved by `offset`, each coordinate saturated.
pub fn translate(point: Vector, offset: Vector) -> (r: Vector)
    ensures
        r == translated(point, (offset.0 as int, offset.1 as int)),
{
    (offset_by(point.0, offset.0), offset_by(point.1, offset.1))
}

/// The coordinate reached from `start` after moving at `rate` quanta per
/// tick for `ticks` ticks, saturated.
pub fn advance(start: i64, rate: i64, ticks: u64) -> (r: i64)
    ensures
        r == saturate(start + rate * ticks),
{
    let rate_wide: i128 = rate as i128;
    let ticks_wide: i128 = ticks as i128;
    assert(-0x8000_0000_0000_0000 * 0xffff_ffff_ffff_ffff <= rate_wide * ticks_wide
        <= 0x7fff_ffff_ffff_ffff * 0xffff_ffff_ffff_ffff) by (nonlinear_arith)
        requires
            -0x8000_0000_0000_0000 <= rate_wide <= 0x7fff_ffff_ffff_ffff,
            0 <= ticks_wide <= 0xffff_ffff_ffff_ffff,
    ;
    saturate_wide(start as i128 + rate_wide * ticks_wide)
}

/// Half of `x`, rounded towards negative infinity.
pub fn half(x: i64) -> (r: i64)
    ensures
        r == x / 2,
{
    if x >= 0 {
        x / 2
    } else {
        (x + 1) / 2 - 1
    }
}

/// `numer / denom` rounded towards negative infinity.
pub fn floor_div(numer: i128, denom: i128) -> (q: i128)
    requires
        denom > 0,
    ensures
        q == numer / denom,
{
    proof {
        lemma_floor_div_bounds(numer as int, denom as int);
    }
    numer.checked_div_euclid(denom).unwrap()
}

/// A quotient by a positive divisor lies between zero and the dividend.
proof fn lemma_floor_div_bounds(numer: int, denom: int)
    by (nonlinear_arith)
    requires
        denom > 0,
    ensures
        numer >= 0 ==> 0 <= numer / denom <= numer,
        numer < 0 ==> numer <= numer / denom < 0,
{
}

} // verus!
