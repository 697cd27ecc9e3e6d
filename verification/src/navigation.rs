//! Moving and resizing the region that is shown.
//!
//! Panning moves both corners by the same displacement. Zooming scales the
//! region about its centre by a ratio of two positive integers; a ratio below
//! one shows less of the simulation, larger. Coordinates are rounded towards
//! negative infinity once, at the end, and saturate.

use vstd::prelude::*;
use vstd::arithmetic::div_mod::{lemma_fundamental_div_mod, lemma_mod_bound};
use crate::numeric::{floor_div, saturate, saturate_wide, translated, Vector};
use crate::view::Region;

verus! {

/// A positive ratio by which the extent of a region changes.
#[derive(Clone, Copy, Debug, PartialEq, Eq)]
pub struct ZoomFactor {
    numer: u32,
    denom: u32,
}

/// The coordinate `a` of one corner after the region is scaled by
/// `numer / denom` about the midpoint between `a` and the opposite corner's
/// coordinate `b`, rounded towards negative infinity:
/// `(a + b) / 2 + (a - b) / 2 * numer / denom` with a single division.
pub open spec fn zoomed_coordinate(a: int, b: int, numer: int, denom: int) -> int {
    ((a + b) * denom + (a - b) * numer) / (2 * denom)
}

/// `region` scaled by `numer / denom` about its centre.
pub open spec fn zoomed(region: Region, numer: int, denom: int) -> Region {
    let (p1, p2) = region;
    (
        (
            saturate(zoomed_coordinate(p1.0 as int, p2.0 as int, numer, denom)),
            saturate(zoomed_coordinate(p1.1 as int, p2.1 as int, numer, denom)),
        ),
        (
            saturate(zoomed_coordinate(p2.0 as int, p1.0 as int, numer, denom)),
            saturate(zoomed_coordinate(p2.1 as int, p1.1 as int, numer, denom)),
        ),
    )
}

/// `region` with both corners moved by `delta`.
pub open spec fn panned(region: Region, delta: (int, int)) -> Region {
    (translated(region.0, delta), translated(region.1, delta))
}

/// Whether panning `region` by `delta` keeps every coordinate on the
/// lattice.
pub open spec fn pan_in_range(region: Region, delta: (int, int)) -> bool {
    &&& i64::MIN <= region.0.0 + delta.0 <= i64::MAX
    &&& i64::MIN <= region.0.1 + delta.1 <= i64::MAX
    &&& i64::MIN <= region.1.0 + delta.0 <= i64::MAX
    &&& i64::MIN <= region.1.1 + delta.1 <= i64::MAX
}

/// Whether scaling `region` by `numer / denom` keeps every coordinate on the
/// lattice.
pub open spec fn zoom_in_range(region: Region, numer: int, denom: int) -> bool {
    let (p1, p2) = region;
    &&& i64::MIN <= zoomed_coordinate(p1.0 as int, p2.0 as int, numer, denom) <= i64::MAX
    &&& i64::MIN <= zoomed_coordinate(p1.1 as int, p2.1 as int, numer, denom) <= i64::MAX
    &&& i64::MIN <= zoomed_coordinate(p2.0 as int, p1.0 as int, numer, denom) <= i64::MAX
    &&& i64::MIN <= zoomed_coordinate(p2.1 as int, p1.1 as int, numer, denom) <= i64::MAX
}

/// Whether scaling `region` by `numer / denom` needs no rounding and keeps
/// every coordinate on the lattice.
pub open spec fn zoom_is_exact(region: Region, numer: int, denom: int) -> bool {
    let (p1, p2) = region;
    &&& ((p1.0 + p2.0) * denom + (p1.0 - p2.0) * numer) % (2 * denom) == 0
    &&& ((p1.1 + p2.1) * denom + (p1.1 - p2.1) * numer) % (2 * denom) == 0
    &&& ((p2.0 + p1.0) * denom + (p2.0 - p1.0) * numer) % (2 * denom) == 0
    &&& ((p2.1 + p1.1) * denom + (p2.1 - p1.1) * numer) % (2 * denom) == 0
    &&& zoom_in_range(region, numer, denom)
}

/// Whether `a` and `b` differ by at most `tolerance`.
pub open spec fn close(a: int, b: int, tolerance: int) -> bool {
    b - tolerance <= a <= b + tolerance
}

/// Whether each corner of `first` is within `tolerance` of the same corner
/// of `second`, along each axis.
pub open spec fn regions_close(first: Region, second: Region, tolerance: int) -> bool {
    &&& close(first.0.0 as int, second.0.0 as int, tolerance)
    &&& close(first.0.1 as int, second.0.1 as int, tolerance)
    &&& close(first.1.0 as int, second.1.0 as int, tolerance)
    &&& close(first.1.1 as int, second.1.1 as int, tolerance)
}

/// Two pans in a row are one pan by the sum of their displacements, as long
/// as the first keeps the region on the lattice.
pub proof fn lemma_pan_composes(region: Region, first: (int, int), second: (int, int))
    requires
        pan_in_range(region, first),
    ensures
        panned(panned(region, first), second) == panned(
            region,
            (first.0 + second.0, first.1 + second.1),
        ),
{
}

/// Two pans can be made in either order, as long as each of them alone keeps
/// the region on the lattice.
pub proof fn lemma_pan_commutes(region: Region, first: (int, int), second: (int, int))
    requires
        pan_in_range(region, first),
        pan_in_range(region, second),
    ensures
        panned(panned(region, first), second) == panned(panned(region, second), first),
{
}

/// Scaling by one leaves a region as it is.
pub proof fn lemma_zoom_by_one(region: Region)
    ensures
        zoomed(region, 1, 1) == region,
{
    let (p1, p2) = region;
    lemma_unit_zoom_of_axis(p1.0 as int, p2.0 as int);
    lemma_unit_zoom_of_axis(p1.1 as int, p2.1 as int);
    lemma_unit_zoom_of_axis(p2.0 as int, p1.0 as int);
    lemma_unit_zoom_of_axis(p2.1 as int, p1.1 as int);
}

/// On one axis: scaling by one leaves an end where it was.
proof fn lemma_unit_zoom_of_axis(a: int, b: int)
    by (nonlinear_arith)
    ensures
        zoomed_coordinate(a, b, 1, 1) == a,
{
}

/// On one axis: scaling both ends by a ratio and then by its reciprocal
/// returns an end to where it was, where the first scaling needs no rounding.
proof fn lemma_exact_zoom_of_axis(a: int, b: int, numer: int, denom: int)
    by (nonlinear_arith)
    requires
        numer > 0,
        denom > 0,
        ((a + b) * denom + (a - b) * numer) % (2 * denom) == 0,
        ((b + a) * denom + (b - a) * numer) % (2 * denom) == 0,
    ensures
        zoomed_coordinate(
            zoomed_coordinate(a, b, numer, denom),
            zoomed_coordinate(b, a, numer, denom),
            denom,
            numer,
        ) == a,
{
    let a1 = zoomed_coordinate(a, b, numer, denom);
    let b1 = zoomed_coordinate(b, a, numer, denom);
    assert(a1 * (2 * denom) == (a + b) * denom + (a - b) * numer);
    assert(b1 * (2 * denom) == (b + a) * denom + (b - a) * numer);
    assert((a1 + b1) * (2 * denom) == (a + b) * (2 * denom));
    assert(a1 + b1 == a + b);
    assert((a1 - b1) * (2 * denom) == (a - b) * (2 * numer));
    assert((a1 - b1) * denom == (a - b) * numer);
    assert((a1 + b1) * numer + (a1 - b1) * denom == a * (2 * numer));
    assert((a * (2 * numer)) / (2 * numer) == a);
}

/// Scaling by a ratio and then by its reciprocal returns the region to its
/// corners, where the first scaling needs no rounding and keeps the region
/// on the lattice.
pub proof fn lemma_zoom_round_trip(region: Region, numer: int, denom: int)
    requires
        numer > 0,
        denom > 0,
        zoom_is_exact(region, numer, denom),
    ensures
        zoomed(zoomed(region, numer, denom), denom, numer) == region,
{
    let (p1, p2) = region;
    lemma_exact_zoom_of_axis(p1.0 as int, p2.0 as int, numer, denom);
    lemma_exact_zoom_of_axis(p1.1 as int, p2.1 as int, numer, denom);
    lemma_exact_zoom_of_axis(p2.0 as int, p1.0 as int, numer, denom);
    lemma_exact_zoom_of_axis(p2.1 as int, p1.1 as int, numer, denom);
}

/// On one axis: scaling both ends by a ratio and then by its reciprocal
/// returns an end to within `denom / numer + 1` of where it was.
proof fn lemma_round_trip_of_axis(a: int, b: int, numer: int, denom: int)
    requires
        numer > 0,
        denom > 0,
    ensures
        close(
            zoomed_coordinate(
                zoomed_coordinate(a, b, numer, denom),
                zoomed_coordinate(b, a, numer, denom),
                denom,
                numer,
            ),
            a,
            denom / numer + 1,
        ),
{
    let n = numer;
    let d = denom;
    let sum_a = (a + b) * d + (a - b) * n;
    let sum_b = (b + a) * d + (b - a) * n;
    let a1 = sum_a / (2 * d);
    let ra = sum_a % (2 * d);
    let b1 = sum_b / (2 * d);
    let rb = sum_b % (2 * d);
    lemma_fundamental_div_mod(sum_a, 2 * d);
    lemma_fundamental_div_mod(sum_b, 2 * d);
    lemma_mod_bound(sum_a, 2 * d);
    lemma_mod_bound(sum_b, 2 * d);
    let x = (a1 + b1) * n + (a1 - b1) * d;
    let a2 = x / (2 * n);
    let rx = x % (2 * n);
    lemma_fundamental_div_mod(x, 2 * n);
    lemma_mod_bound(x, 2 * n);
    let t = d / n;
    let rt = d % n;
    lemma_fundamental_div_mod(d, n);
    lemma_mod_bound(d, n);
    // Twice the denominator times the sum and the difference of the scaled
    // ends, then times the numerator of the way back.
    let s = a1 + b1;
    let e = a1 - b1;
    assert(sum_a + sum_b == 2 * ((a + b) * d) && sum_a - sum_b == 2 * ((a - b) * n))
        by (nonlinear_arith)
        requires
            sum_a == (a + b) * d + (a - b) * n,
            sum_b == (b + a) * d + (b - a) * n,
    ;
    assert((2 * d) * s == (2 * d) * a1 + (2 * d) * b1 && (2 * d) * e == (2 * d) * a1 - (2 * d)
        * b1) by (nonlinear_arith)
        requires
            s == a1 + b1,
            e == a1 - b1,
    ;
    let ds = (2 * d) * s;
    let de = (2 * d) * e;
    assert(ds == 2 * ((a + b) * d) - ra - rb);
    assert(de == 2 * ((a - b) * n) - ra + rb);
    assert((2 * d) * x == ds * n + de * d) by (nonlinear_arith)
        requires
            x == s * n + e * d,
            ds == (2 * d) * s,
            de == (2 * d) * e,
    ;
    let p = (a + b) * d;
    let q = (a - b) * n;
    assert(ds * n == 2 * (p * n) - ra * n - rb * n) by (nonlinear_arith)
        requires
            ds == 2 * p - ra - rb,
    ;
    assert(de * d == 2 * (q * d) - ra * d + rb * d) by (nonlinear_arith)
        requires
            de == 2 * q - ra + rb,
    ;
    assert(p * n + q * d == 2 * (d * n * a) && 4 * d * n * a == 4 * (d * n * a))
        by (nonlinear_arith)
        requires
            p == (a + b) * d,
            q == (a - b) * n,
    ;
    assert(ra * (n + d) == ra * n + ra * d && rb * (n - d) == rb * n - rb * d)
        by (nonlinear_arith);
    assert(ds * n + de * d == 4 * d * n * a - ra * (n + d) - rb * (n - d));
    assert((2 * d) * x == 4 * d * n * a2 + 2 * d * rx) by (nonlinear_arith)
        requires
            x == (2 * n) * a2 + rx,
    ;
    assert(4 * d * n * (a2 - a) == 4 * d * n * a2 - 4 * d * n * a) by (nonlinear_arith);
    assert(4 * d * n * (a2 - a) == -(ra * (n + d)) - rb * (n - d) - 2 * d * rx);
    assert(a2 - a <= t + 1) by (nonlinear_arith)
        requires
            4 * d * n * (a2 - a) == -(ra * (n + d)) - rb * (n - d) - 2 * d * rx,
            0 <= ra < 2 * d,
            0 <= rb < 2 * d,
            0 <= rx < 2 * n,
            n > 0,
            d > 0,
            d == n * t + rt,
            0 <= rt < n,
    ;
    assert(a - a2 <= t + 1) by (nonlinear_arith)
        requires
            4 * d * n * (a2 - a) == -(ra * (n + d)) - rb * (n - d) - 2 * d * rx,
            0 <= ra < 2 * d,
            0 <= rb < 2 * d,
            0 <= rx < 2 * n,
            n > 0,
            d > 0,
            d == n * t + rt,
            0 <= rt < n,
    ;
}

/// Scaling by a ratio and then by its reciprocal returns every coordinate of
/// the region to within `denom / numer + 1` quanta of where it was, as long
/// as the first scaling keeps the region on the lattice. What is lost is
/// what the two roundings took.
pub proof fn lemma_zoom_round_trip_is_close(region: Region, numer: int, denom: int)
    requires
        numer > 0,
        denom > 0,
        zoom_in_range(region, numer, denom),
    ensures
        regions_close(
            zoomed(zoomed(region, numer, denom), denom, numer),
            region,
            denom / numer + 1,
        ),
{
    let (p1, p2) = region;
    lemma_round_trip_of_axis(p1.0 as int, p2.0 as int, numer, denom);
    lemma_round_trip_of_axis(p1.1 as int, p2.1 as int, numer, denom);
    lemma_round_trip_of_axis(p2.0 as int, p1.0 as int, numer, denom);
    lemma_round_trip_of_axis(p2.1 as int, p1.1 as int, numer, denom);
}

impl ZoomFactor {
    #[verifier::type_invariant]
    spec fn positive(self) -> bool {
        self.numer > 0 && self.denom > 0
    }

    /// The numerator of the ratio.
    pub closed spec fn numer(self) -> int {
        self.numer as int
    }

    /// The denominator of the ratio.
    pub closed spec fn denom(self) -> int {
        self.denom as int
    }

    /// The ratio `numer / denom`; there is none where either is zero.
    pub fn new(numer: u32, denom: u32) -> (factor: Option<ZoomFactor>)
        ensures
            factor.is_none() <==> numer == 0 || denom == 0,
            factor.is_some() ==> factor.unwrap().numer() == numer && factor.unwrap().denom()
                == denom,
    {
        if numer == 0 || denom == 0 {
            None
        } else {
            Some(ZoomFactor { numer, denom })
        }
    }

    /// The ratio that leaves a region as it is.
    pub fn identity() -> (factor: ZoomFactor)
        ensures
            factor.numer() == 1,
            factor.denom() == 1,
    {
        ZoomFactor { numer: 1, denom: 1 }
    }

    /// The ratio that undoes this one.
    pub fn reciprocal(&self) -> (factor: ZoomFactor)
        ensures
            factor.numer() == self.denom(),
            factor.denom() == self.numer(),
    {
        proof {
            use_type_invariant(self);
        }
        ZoomFactor { numer: self.denom, denom: self.numer }
    }

    /// The numerator, which is positive.
    pub fn numerator(&self) -> (n: u32)
        ensures
            n == self.numer(),
            n > 0,
    {
        proof {
            use_type_invariant(self);
        }
        self.numer
    }

    /// The denominator, which is positive.
    pub fn denominator(&self) -> (d: u32)
        ensures
            d == self.denom(),
            d > 0,
    {
        proof {
            use_type_invariant(self);
        }
        self.denom
    }

    /// Scales one coordinate of a corner; `b` is the same coordinate of the
    /// opposite corner.
    fn scale_coordinate(&self, a: i64, b: i64) -> (r: i64)
        ensures
            r == saturate(zoomed_coordinate(a as int, b as int, self.numer(), self.denom())),
    {
        proof {
            use_type_invariant(self);
        }
        let numer: i128 = self.numer as i128;
        let denom: i128 = self.denom as i128;
        let sum: i128 = a as i128 + b as i128;
        let difference: i128 = a as i128 - b as i128;
        assert(-0x1_0000_0000_0000_0000 * 0xffff_ffff <= sum * denom <= 0x1_0000_0000_0000_0000
            * 0xffff_ffff) by (nonlinear_arith)
            requires
                -0x1_0000_0000_0000_0000 <= sum <= 0x1_0000_0000_0000_0000,
                0 <= denom <= 0xffff_ffff,
        ;
        assert(-0x1_0000_0000_0000_0000 * 0xffff_ffff <= difference * numer
            <= 0x1_0000_0000_0000_0000 * 0xffff_ffff) by (nonlinear_arith)
            requires
                -0x1_0000_0000_0000_0000 <= difference <= 0x1_0000_0000_0000_0000,
                0 <= numer <= 0xffff_ffff,
        ;
        saturate_wide(floor_div(sum * denom + difference * numer, 2 * denom))
    }

    /// Scales `region` about its centre by this ratio.
    pub fn zoom_region(&self, region: Region) -> (r: Region)
        ensures
            r == zoomed(region, self.numer(), self.denom()),
    {
        let (p1, p2) = region;
        (
            (self.scale_coordinate(p1.0, p2.0), self.scale_coordinate(p1.1, p2.1)),
            (self.scale_coordinate(p2.0, p1.0), self.scale_coordinate(p2.1, p1.1)),
        )
    }
}

/// Moves one coordinate by a displacement of any size.
fn pan_coordinate(a: i64, delta: i128) -> (r: i64)
    ensures
        r == saturate(a + delta),
{
    match (a as i128).checked_add(delta) {
        Some(sum) => saturate_wide(sum),
        None => if delta > 0 {
            i64::MAX
        } else {
            i64::MIN
        },
    }
}

/// Moves both corners of `region` by `delta`.
pub fn pan_region(region: Region, delta: (i128, i128)) -> (r: Region)
    ensures
        r == panned(region, (delta.0 as int, delta.1 as int)),
{
    let (p1, p2) = region;
    (
        (pan_coordinate(p1.0, delta.0), pan_coordinate(p1.1, delta.1)),
        (pan_coordinate(p2.0, delta.0), pan_coordinate(p2.1, delta.1)),
    )
}

} // verus!
