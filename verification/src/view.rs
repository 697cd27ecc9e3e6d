//! The map from a region of the simulation onto a surface of pixels.
//!
//! A region is given by two corners. The first corner lands on the lower left
//! pixel corner of the surface and the second on the upper right one, so the
//! simulation's "up" is up on the screen although pixel rows count downwards.

use vstd::prelude::*;
use vstd::arithmetic::div_mod::lemma_div_is_ordered;
use crate::numeric::{floor_div, Vector};

verus! {

/// Two corners of the simulation that bound what is shown.
pub type Region = (Vector, Vector);

/// Why a region cannot be shown.
#[derive(Clone, Copy, Debug, PartialEq, Eq)]
pub enum RegionError {
    /// Both corners have the same horizontal coordinate.
    ZeroWidth,
    /// Both corners have the same vertical coordinate.
    ZeroHeight,
}

/// Whether a region with corners `p1` and `p2` can be shown, and if not, why.
pub open spec fn region_check(p1: Vector, p2: Vector) -> Result<(), RegionError> {
    if p1.0 == p2.0 {
        Err(RegionError::ZeroWidth)
    } else if p1.1 == p2.1 {
        Err(RegionError::ZeroHeight)
    } else {
        Ok(())
    }
}

/// Decides whether a region with corners `p1` and `p2` can be shown.
pub fn check_region(p1: Vector, p2: Vector) -> (r: Result<(), RegionError>)
    ensures
        r == region_check(p1, p2),
{
    if p1.0 == p2.0 {
        Err(RegionError::ZeroWidth)
    } else if p1.1 == p2.1 {
        Err(RegionError::ZeroHeight)
    } else {
        Ok(())
    }
}

/// The pixel coordinate of `v` on an axis that sends `start` to pixel zero
/// and `end` to pixel `length`, rounded towards negative infinity. The axis
/// may run either way; `start` and `end` differ.
pub open spec fn axis_pixel(start: int, end: int, length: int, v: int) -> int {
    if end > start {
        (length * (v - start)) / (end - start)
    } else {
        (length * (start - v)) / (start - end)
    }
}

/// The pixel that `point` lands on when `region` fills a surface of
/// `dimensions` pixels. Horizontally the first corner is pixel zero;
/// vertically the second corner is.
pub open spec fn surface_point(region: Region, dimensions: (i32, i32), point: Vector) -> (int, int) {
    (
        axis_pixel(region.0.0 as int, region.1.0 as int, dimensions.0 as int, point.0 as int),
        axis_pixel(region.1.1 as int, region.0.1 as int, dimensions.1 as int, point.1 as int),
    )
}

/// One axis of the map: `v` goes to `numer * (v - anchor) / denom`.
#[derive(Clone, Copy, Debug, PartialEq, Eq)]
pub struct AxisMap {
    numer: i64,
    denom: u64,
    anchor: i64,
}

impl AxisMap {
    #[verifier::type_invariant]
    spec fn positive_denominator(self) -> bool {
        self.denom > 0
    }

    /// The numerator of the scale; negative where the axis runs backwards.
    pub closed spec fn numer(self) -> int {
        self.numer as int
    }

    /// The denominator of the scale.
    pub closed spec fn denom(self) -> int {
        self.denom as int
    }

    /// The coordinate that goes to pixel zero.
    pub closed spec fn anchor(self) -> int {
        self.anchor as int
    }

    /// The pixel coordinate of `v`.
    pub open spec fn image(self, v: int) -> int {
        (self.numer() * (v - self.anchor())) / self.denom()
    }

    /// The map sends `start` to pixel zero and `end` to pixel `length`.
    pub open spec fn spans(self, start: int, end: int, length: int) -> bool {
        &&& start != end
        &&& self.anchor() == start
        &&& self.denom() == if end > start { end - start } else { start - end }
        &&& self.numer() == if end > start { length } else { -length }
    }

    /// The axis that sends `start` to pixel zero and `end` to pixel `length`,
    /// for two ends that differ.
    fn spanning(start: i64, end: i64, length: i32) -> (axis: AxisMap)
        requires
            start != end,
        ensures
            axis.spans(start as int, end as int, length as int),
    {
        if end > start {
            let extent: i128 = end as i128 - start as i128;
            AxisMap { numer: length as i64, denom: extent as u64, anchor: start }
        } else {
            let extent: i128 = start as i128 - end as i128;
            AxisMap { numer: -(length as i64), denom: extent as u64, anchor: start }
        }
    }

    /// The axis that sends `start` to pixel zero and `end` to pixel `length`;
    /// there is none where `start` and `end` are the same.
    pub fn between(start: i64, end: i64, length: i32) -> (axis: Option<AxisMap>)
        ensures
            start == end <==> axis.is_none(),
            axis.is_some() ==> axis.unwrap().spans(start as int, end as int, length as int),
    {
        if start == end {
            None
        } else {
            Some(Self::spanning(start, end, length))
        }
    }

    /// The numerator of the scale.
    pub fn scale_numerator(&self) -> (n: i64)
        ensures
            n == self.numer(),
    {
        self.numer
    }

    /// The denominator of the scale, which is positive.
    pub fn scale_denominator(&self) -> (d: u64)
        ensures
            d == self.denom(),
            d > 0,
    {
        proof {
            use_type_invariant(self);
        }
        self.denom
    }

    /// The coordinate that goes to pixel zero.
    pub fn origin(&self) -> (a: i64)
        ensures
            a == self.anchor(),
    {
        self.anchor
    }

    /// The pixel coordinate of `v`.
    pub fn apply(&self, v: i64) -> (pixel: i128)
        ensures
            pixel == self.image(v as int),
    {
        proof {
            use_type_invariant(self);
        }
        let numer: i128 = self.numer as i128;
        let distance: i128 = v as i128 - self.anchor as i128;
        assert(-0x8000_0000_0000_0000 * 0xffff_ffff_ffff_ffff <= numer * distance
            <= 0x8000_0000_0000_0000 * 0xffff_ffff_ffff_ffff) by (nonlinear_arith)
            requires
                -0x8000_0000_0000_0000 <= numer <= 0x8000_0000_0000_0000,
                -0xffff_ffff_ffff_ffff <= distance <= 0xffff_ffff_ffff_ffff,
        ;
        floor_div(numer * distance, self.denom as i128)
    }

    /// A map that spans an axis computes that axis's pixel coordinates; the
    /// ends of the axis land on pixel zero and on pixel `length`.
    pub proof fn lemma_spanning_image(self, start: int, end: int, length: int, v: int)
        requires
            self.spans(start, end, length),
        ensures
            self.image(v) == axis_pixel(start, end, length, v),
            self.image(start) == 0,
            self.image(end) == length,
    {
        lemma_axis_pixel_ends(start, end, length);
        assert(-length * (v - start) == length * (start - v)) by (nonlinear_arith);
        assert(-length * (start - start) == length * (start - start)) by (nonlinear_arith);
        assert(-length * (end - start) == length * (start - end)) by (nonlinear_arith);
    }
}

/// The whole map: one axis across the surface and one down it.
#[derive(Clone, Copy, Debug, PartialEq, Eq)]
pub struct ViewTransform {
    horizontal: AxisMap,
    vertical: AxisMap,
}

impl ViewTransform {
    /// The axis across the surface.
    pub closed spec fn across(self) -> AxisMap {
        self.horizontal
    }

    /// The axis down the surface.
    pub closed spec fn down(self) -> AxisMap {
        self.vertical
    }

    /// The pixel that `point` lands on.
    pub open spec fn image(self, point: Vector) -> (int, int) {
        (self.across().image(point.0 as int), self.down().image(point.1 as int))
    }

    /// The map stretches `region` over a surface of `dimensions` pixels and
    /// turns the vertical axis over: the first corner's row is the last one.
    pub open spec fn fits(self, region: Region, dimensions: (i32, i32)) -> bool {
        &&& self.across().spans(region.0.0 as int, region.1.0 as int, dimensions.0 as int)
        &&& self.down().spans(region.1.1 as int, region.0.1 as int, dimensions.1 as int)
    }

    /// Builds the map that stretches the region with corners `p1` and `p2`
    /// over a surface of `dimensions` pixels. A region without width or
    /// without height is refused.
    pub fn fit(p1: Vector, p2: Vector, dimensions: (i32, i32)) -> (r: Result<
        ViewTransform,
        RegionError,
    >)
        ensures
            match r {
                Ok(transform) => region_check(p1, p2).is_ok() && transform.fits(
                    (p1, p2),
                    dimensions,
                ),
                Err(e) => region_check(p1, p2) == Err::<(), RegionError>(e),
            },
    {
        match check_region(p1, p2) {
            Err(e) => Err(e),
            Ok(()) => Ok(Self::stretching((p1, p2), dimensions)),
        }
    }

    /// The map that stretches a region with width and height over a surface
    /// of `dimensions` pixels.
    fn stretching(region: Region, dimensions: (i32, i32)) -> (transform: ViewTransform)
        requires
            region_check(region.0, region.1).is_ok(),
        ensures
            transform.fits(region, dimensions),
    {
        let (p1, p2) = region;
        ViewTransform {
            horizontal: AxisMap::spanning(p1.0, p2.0, dimensions.0),
            vertical: AxisMap::spanning(p2.1, p1.1, dimensions.1),
        }
    }

    /// The axis across the surface.
    pub fn horizontal(&self) -> (axis: AxisMap)
        ensures
            axis == self.across(),
    {
        self.horizontal
    }

    /// The axis down the surface.
    pub fn vertical(&self) -> (axis: AxisMap)
        ensures
            axis == self.down(),
    {
        self.vertical
    }

    /// The pixel that `point` lands on.
    pub fn to_surface(&self, point: Vector) -> (pixel: (i128, i128))
        ensures
            (pixel.0 as int, pixel.1 as int) == self.image(point),
    {
        (self.horizontal.apply(point.0), self.vertical.apply(point.1))
    }

    /// A fitted map computes `surface_point`. The region's first corner lands
    /// on the first column and the last row, its second corner on the last
    /// column and the first row.
    pub proof fn lemma_fitted_image(self, region: Region, dimensions: (i32, i32), point: Vector)
        requires
            self.fits(region, dimensions),
        ensures
            self.image(point) == surface_point(region, dimensions, point),
            self.image(region.0) == (0int, dimensions.1 as int),
            self.image(region.1) == (dimensions.0 as int, 0int),
    {
        let (p1, p2) = region;
        self.across().lemma_spanning_image(
            p1.0 as int,
            p2.0 as int,
            dimensions.0 as int,
            point.0 as int,
        );
        self.down().lemma_spanning_image(
            p2.1 as int,
            p1.1 as int,
            dimensions.1 as int,
            point.1 as int,
        );
    }
}

/// A region with width and height: one that can be shown.
#[derive(Clone, Copy, Debug, PartialEq, Eq)]
pub struct ViewRegion {
    corners: Region,
}

impl ViewRegion {
    #[verifier::type_invariant]
    spec fn can_be_shown(self) -> bool {
        region_check(self.corners.0, self.corners.1).is_ok()
    }

    /// The two corners.
    pub closed spec fn bounds(self) -> Region {
        self.corners
    }

    /// The region with corners `p1` and `p2`, unless it lacks width or
    /// height.
    pub fn new(p1: Vector, p2: Vector) -> (r: Result<ViewRegion, RegionError>)
        ensures
            match r {
                Ok(region) => region_check(p1, p2).is_ok() && region.bounds() == (p1, p2),
                Err(e) => region_check(p1, p2) == Err::<(), RegionError>(e),
            },
    {
        match check_region(p1, p2) {
            Err(e) => Err(e),
            Ok(()) => Ok(ViewRegion { corners: (p1, p2) }),
        }
    }

    /// The two corners, which differ in both coordinates.
    pub fn corners(&self) -> (corners: Region)
        ensures
            corners == self.bounds(),
            region_check(corners.0, corners.1).is_ok(),
    {
        proof {
            use_type_invariant(self);
        }
        self.corners
    }

    /// The map that stretches the region over a surface of `dimensions`
    /// pixels.
    pub fn transform(&self, dimensions: (i32, i32)) -> (transform: ViewTransform)
        ensures
            transform.fits(self.bounds(), dimensions),
    {
        proof {
            use_type_invariant(self);
        }
        ViewTransform::stretching(self.corners, dimensions)
    }
}

/// Along an axis that runs forwards, a larger coordinate never lands on a
/// smaller pixel, and what lies between the ends lands on the surface.
pub proof fn lemma_axis_pixel_forwards(start: int, end: int, length: int, v: int, w: int)
    requires
        start < end,
        0 <= length,
        v <= w,
    ensures
        axis_pixel(start, end, length, v) <= axis_pixel(start, end, length, w),
        start <= v && w <= end ==> 0 <= axis_pixel(start, end, length, v) && axis_pixel(
            start,
            end,
            length,
            w,
        ) <= length,
{
    let extent = end - start;
    assert(length * (v - start) <= length * (w - start)) by (nonlinear_arith)
        requires
            0 <= length,
            v <= w,
    ;
    lemma_div_is_ordered(length * (v - start), length * (w - start), extent);
    lemma_axis_pixel_ends(start, end, length);
    if start <= v && w <= end {
        assert(length * (start - start) <= length * (v - start)) by (nonlinear_arith)
            requires
                0 <= length,
                start <= v,
        ;
        lemma_div_is_ordered(length * (start - start), length * (v - start), extent);
        assert(length * (w - start) <= length * (end - start)) by (nonlinear_arith)
            requires
                0 <= length,
                w <= end,
        ;
        lemma_div_is_ordered(length * (w - start), length * (end - start), extent);
    }
}

/// Along an axis that runs backwards, a larger coordinate never lands on a
/// larger pixel, and what lies between the ends lands on the surface.
pub proof fn lemma_axis_pixel_backwards(start: int, end: int, length: int, v: int, w: int)
    requires
        end < start,
        0 <= length,
        v <= w,
    ensures
        axis_pixel(start, end, length, v) >= axis_pixel(start, end, length, w),
        end <= v && w <= start ==> 0 <= axis_pixel(start, end, length, w) && axis_pixel(
            start,
            end,
            length,
            v,
        ) <= length,
{
    let extent = start - end;
    assert(length * (start - w) <= length * (start - v)) by (nonlinear_arith)
        requires
            0 <= length,
            v <= w,
    ;
    lemma_div_is_ordered(length * (start - w), length * (start - v), extent);
    lemma_axis_pixel_ends(start, end, length);
    if end <= v && w <= start {
        assert(length * (start - start) <= length * (start - w)) by (nonlinear_arith)
            requires
                0 <= length,
                w <= start,
        ;
        lemma_div_is_ordered(length * (start - start), length * (start - w), extent);
        assert(length * (start - v) <= length * (start - end)) by (nonlinear_arith)
            requires
                0 <= length,
                end <= v,
        ;
        lemma_div_is_ordered(length * (start - v), length * (start - end), extent);
    }
}

/// For a region whose second corner lies right of and above its first, on a
/// surface with no negative dimension: moving a point right never moves its
/// pixel left, moving it up never moves its pixel down the surface, and a
/// point inside the region lands on the surface.
pub proof fn lemma_surface_point_orientation(
    region: Region,
    dimensions: (i32, i32),
    a: Vector,
    b: Vector,
)
    requires
        region.0.0 < region.1.0,
        region.0.1 < region.1.1,
        dimensions.0 >= 0,
        dimensions.1 >= 0,
    ensures
        a.0 <= b.0 ==> surface_point(region, dimensions, a).0 <= surface_point(
            region,
            dimensions,
            b,
        ).0,
        a.1 <= b.1 ==> surface_point(region, dimensions, a).1 >= surface_point(
            region,
            dimensions,
            b,
        ).1,
        region.0.0 <= a.0 <= region.1.0 ==> 0 <= surface_point(region, dimensions, a).0
            <= dimensions.0,
        region.0.1 <= a.1 <= region.1.1 ==> 0 <= surface_point(region, dimensions, a).1
            <= dimensions.1,
{
    let (p1, p2) = region;
    if a.0 <= b.0 {
        lemma_axis_pixel_forwards(
            p1.0 as int,
            p2.0 as int,
            dimensions.0 as int,
            a.0 as int,
            b.0 as int,
        );
    }
    if a.1 <= b.1 {
        lemma_axis_pixel_backwards(
            p2.1 as int,
            p1.1 as int,
            dimensions.1 as int,
            a.1 as int,
            b.1 as int,
        );
    }
    lemma_axis_pixel_forwards(p1.0 as int, p2.0 as int, dimensions.0 as int, a.0 as int, a.0 as int);
    lemma_axis_pixel_backwards(
        p2.1 as int,
        p1.1 as int,
        dimensions.1 as int,
        a.1 as int,
        a.1 as int,
    );
}

/// The ends of an axis land on pixel zero and on pixel `length`.
pub proof fn lemma_axis_pixel_ends(start: int, end: int, length: int)
    by (nonlinear_arith)
    requires
        start != end,
    ensures
        axis_pixel(start, end, length, start) == 0,
        axis_pixel(start, end, length, end) == length,
{
}

} // verus!
