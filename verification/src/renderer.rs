//! What a renderer does, and a renderer that records its frames.
//!
//! A renderer shows a region of the simulation on a surface. Shapes are drawn
//! between `begin_new_frame` and `end_frame`; `end_frame` hands what has been
//! drawn to the display. `FrameRecorder` keeps the finished frame as a list of
//! shapes, with the transform that places them on the surface, for whatever
//! puts pixels on a screen.

use vstd::prelude::*;
use crate::model::primitive::{Circle, Color, Rectangle};
use crate::model::Primitive;
use crate::numeric::Vector;
use crate::physics::Pose;
use crate::view::{region_check, Region, RegionError, ViewRegion, ViewTransform};

verus! {

/// What can be observed of a renderer.
pub struct RenderState {
    /// The region of the simulation that fills the surface.
    pub view_region: Region,
    /// Width and height of the surface in pixels.
    pub surface_dimensions: (i32, i32),
    /// The shapes drawn since the surface was last cleared, oldest first.
    pub canvas: Seq<Primitive>,
    /// The shapes of the frame that was last handed to the display.
    pub presented: Seq<Primitive>,
}

impl RenderState {
    /// The state after the region with corners `p1` and `p2` was asked for:
    /// it is shown if it has width and height, and else nothing changes.
    pub open spec fn with_region(self, p1: Vector, p2: Vector) -> RenderState {
        if region_check(p1, p2).is_ok() {
            RenderState { view_region: (p1, p2), ..self }
        } else {
            self
        }
    }

    /// The state after the surface was replaced by an empty one of another
    /// size.
    pub open spec fn resized(self, dimensions: (i32, i32)) -> RenderState {
        RenderState { surface_dimensions: dimensions, canvas: Seq::empty(), ..self }
    }

    /// The state after the surface was cleared.
    pub open spec fn cleared(self) -> RenderState {
        RenderState { canvas: Seq::empty(), ..self }
    }

    /// The state after `shape` was drawn on top of what was there.
    pub open spec fn with_shape(self, shape: Primitive) -> RenderState {
        RenderState { canvas: self.canvas.push(shape), ..self }
    }

    /// The state after `shapes` were drawn, in their order.
    pub open spec fn with_shapes(self, shapes: Seq<Primitive>) -> RenderState {
        RenderState { canvas: self.canvas + shapes, ..self }
    }

    /// The state after what is on the surface was handed to the display.
    pub open spec fn submitted(self) -> RenderState {
        RenderState { presented: self.canvas, ..self }
    }
}

/// The region that was set is the region that is shown: after a region with
/// width and height was asked for, it is the view region, whatever was shown
/// before; a region without width or without height leaves the view region
/// as it was. Nothing else changes in either case.
pub proof fn lemma_region_set_is_region_shown(state: RenderState, p1: Vector, p2: Vector)
    ensures
        region_check(p1, p2).is_ok() ==> state.with_region(p1, p2).view_region == (p1, p2),
        region_check(p1, p2).is_err() ==> state.with_region(p1, p2).view_region
            == state.view_region,
        state.with_region(p1, p2).surface_dimensions == state.surface_dimensions,
        state.with_region(p1, p2).canvas == state.canvas,
        state.with_region(p1, p2).presented == state.presented,
{
}

/// A frame shows what was drawn for it: clearing the surface, drawing
/// `shapes` and handing the frame over presents exactly `shapes`.
pub proof fn lemma_frame_presents_what_was_drawn(state: RenderState, shapes: Seq<Primitive>)
    ensures
        state.cleared().with_shapes(shapes).submitted().presented == shapes,
        state.cleared().with_shapes(shapes).submitted().view_region == state.view_region,
{
    assert(Seq::<Primitive>::empty() + shapes =~= shapes);
}

/// Draws shapes from a region of the simulation onto a surface.
pub trait Renderer {
    /// What can be observed of this renderer.
    spec fn state(&self) -> RenderState;

    /// Selects the region with corners `p1` and `p2` to fill the surface. A
    /// region without width or without height is refused, and the region
    /// shown so far stays.
    fn set_physics_region(&mut self, p1: Vector, p2: Vector) -> (r: Result<(), RegionError>)
        ensures
            r == region_check(p1, p2),
            final(self).state() == old(self).state().with_region(p1, p2),
    ;

    /// The region that was last selected.
    fn get_physics_view_region(&self) -> (region: Region)
        ensures
            region == self.state().view_region,
    ;

    /// Replaces the surface by an empty one of the given size, which shows
    /// the same region.
    fn resize_surface(&mut self, dimensions: (i32, i32))
        ensures
            final(self).state() == old(self).state().resized(dimensions),
    ;

    /// Clears the surface to the background colour.
    fn begin_new_frame(&mut self)
        ensures
            final(self).state() == old(self).state().cleared(),
    ;

    /// Hands everything drawn since the surface was cleared to the display.
    fn end_frame(&mut self)
        ensures
            final(self).state() == old(self).state().submitted(),
    ;

    /// Draws a shape of either kind on top of what is there.
    fn draw_primitive(&mut self, primitive: &Primitive)
        ensures
            final(self).state() == old(self).state().with_shape(*primitive),
    {
        match primitive {
            Primitive::Circle(circle) => self.draw_circle(circle),
            Primitive::Rectangle(rectangle) => self.draw_rectangle(rectangle),
        }
    }

    /// Draws a shape moved by the position of `motion`: it appears at its
    /// own origin plus that position.
    fn draw_primitive_with_motion(&mut self, primitive: &Primitive, motion: &Pose)
        ensures
            final(self).state() == old(self).state().with_shape(primitive.placed(*motion)),
    {
        let shape = primitive.with_motion(motion);
        self.draw_primitive(&shape)
    }

    /// Draws a circle on top of what is there.
    fn draw_circle(&mut self, circle: &Circle)
        ensures
            final(self).state() == old(self).state().with_shape(Primitive::Circle(*circle)),
    ;

    /// Draws a rectangle on top of what is there.
    fn draw_rectangle(&mut self, rectangle: &Rectangle)
        ensures
            final(self).state() == old(self).state().with_shape(
                Primitive::Rectangle(*rectangle),
            ),
    ;
}

/// The properties of a surface.
#[derive(Clone, Copy, Debug, PartialEq, Eq)]
pub struct SurfaceProperties {
    pub dimensions: (i32, i32),
    pub num_samples: u32,
    pub stencil_bits: u32,
}

/// A renderer that keeps each frame as a list of shapes.
pub struct FrameRecorder {
    surface_properties: SurfaceProperties,
    view_region: ViewRegion,
    canvas: Vec<Primitive>,
    presented: Vec<Primitive>,
}

impl FrameRecorder {
    /// The region that a new surface of `dimensions` pixels shows: one
    /// quantum to the pixel, from the origin.
    pub open spec fn initial_region(dimensions: (i32, i32)) -> Region {
        ((0i64, 0i64), (dimensions.0 as i64, dimensions.1 as i64))
    }

    /// A recorder for a surface with the given properties. It shows one
    /// quantum to the pixel from the origin, so a surface without width or
    /// without height is refused.
    pub fn new(properties: &SurfaceProperties) -> (r: Result<FrameRecorder, RegionError>)
        ensures
            match r {
                Ok(recorder) => {
                    &&& properties.dimensions.0 != 0
                    &&& properties.dimensions.1 != 0
                    &&& recorder.state() == (RenderState {
                        view_region: Self::initial_region(properties.dimensions),
                        surface_dimensions: properties.dimensions,
                        canvas: Seq::<Primitive>::empty(),
                        presented: Seq::<Primitive>::empty(),
                    })
                    &&& recorder.properties() == *properties
                },
                Err(RegionError::ZeroWidth) => properties.dimensions.0 == 0,
                Err(RegionError::ZeroHeight) => properties.dimensions.0 != 0
                    && properties.dimensions.1 == 0,
            },
    {
        let p1: Vector = (0, 0);
        let p2: Vector = (properties.dimensions.0 as i64, properties.dimensions.1 as i64);
        match ViewRegion::new(p1, p2) {
            Err(e) => Err(e),
            Ok(view_region) => Ok(
                FrameRecorder {
                    surface_properties: *properties,
                    view_region,
                    canvas: Vec::new(),
                    presented: Vec::new(),
                },
            ),
        }
    }

    /// The properties of the surface.
    pub closed spec fn properties(&self) -> SurfaceProperties {
        self.surface_properties
    }

    /// The properties of the surface.
    pub fn surface_properties(&self) -> (properties: SurfaceProperties)
        ensures
            properties == self.properties(),
            properties.dimensions == self.state().surface_dimensions,
    {
        self.surface_properties
    }

    /// The colour that `begin_new_frame` clears the surface to.
    pub fn background() -> (color: Color)
        ensures
            color == (Color { alpha: 255, red: 0, green: 0, blue: 0 }),
    {
        Color::black()
    }

    /// The shapes of the frame that was last handed to the display, in the
    /// order in which they were drawn.
    pub fn frame(&self) -> (shapes: &Vec<Primitive>)
        ensures
            shapes@ == self.state().presented,
    {
        &self.presented
    }

    /// The transform that places the shapes of a frame on the surface: it
    /// stretches the region shown over the surface as it is now.
    pub fn transform(&self) -> (transform: ViewTransform)
        ensures
            transform.fits(self.state().view_region, self.state().surface_dimensions),
    {
        self.view_region.transform(self.surface_properties.dimensions)
    }
}

impl Renderer for FrameRecorder {
    closed spec fn state(&self) -> RenderState {
        RenderState {
            view_region: self.view_region.bounds(),
            surface_dimensions: self.surface_properties.dimensions,
            canvas: self.canvas@,
            presented: self.presented@,
        }
    }

    fn set_physics_region(&mut self, p1: Vector, p2: Vector) -> (r: Result<(), RegionError>) {
        match ViewRegion::new(p1, p2) {
            Err(e) => Err(e),
            Ok(view_region) => {
                self.view_region = view_region;
                Ok(())
            },
        }
    }

    fn get_physics_view_region(&self) -> (region: Region) {
        self.view_region.corners()
    }

    fn resize_surface(&mut self, dimensions: (i32, i32)) {
        self.surface_properties.dimensions = dimensions;
        self.canvas.clear();
    }

    fn begin_new_frame(&mut self) {
        self.canvas.clear();
    }

    fn end_frame(&mut self) {
        let mut frame: Vec<Primitive> = Vec::new();
        let mut i: usize = 0;
        while i < self.canvas.len()
            invariant
                i <= self.canvas@.len(),
                frame@ == self.canvas@.subrange(0, i as int),
                *self == *old(self),
            decreases self.canvas@.len() - i,
        {
            frame.push(self.canvas[i]);
            assert(self.canvas@.subrange(0, i + 1) =~= self.canvas@.subrange(0, i as int).push(
                self.canvas@[i as int],
            ));
            i += 1;
        }
        assert(frame@ =~= self.canvas@);
        self.presented = frame;
    }

    fn draw_circle(&mut self, circle: &Circle) {
        self.canvas.push(Primitive::Circle(*circle));
    }

    fn draw_rectangle(&mut self, rectangle: &Rectangle) {
        self.canvas.push(Primitive::Rectangle(*rectangle));
    }
}

} // verus!
