//! The shapes that a scene is made of.

pub mod primitive;

use vstd::prelude::*;
use vstd::std_specs::convert::FromSpecImpl;
use crate::numeric::{half, offset_by, saturate};
use crate::physics;
use crate::model::primitive::{Circle, Rectangle};

verus! {

/// A drawable shape. Larger models are collections of these.
#[derive(Clone, Copy, Debug, PartialEq, Eq)]
pub enum Primitive {
    Circle(Circle),
    Rectangle(Rectangle),
}

impl From<Circle> for Primitive {
    fn from(circle: Circle) -> (primitive: Primitive) {
        Primitive::Circle(circle)
    }
}

impl FromSpecImpl<Circle> for Primitive {
    open spec fn obeys_from_spec() -> bool {
        true
    }

    open spec fn from_spec(circle: Circle) -> Primitive {
        Primitive::Circle(circle)
    }
}

impl From<Rectangle> for Primitive {
    fn from(rectangle: Rectangle) -> (primitive: Primitive) {
        Primitive::Rectangle(rectangle)
    }
}

impl FromSpecImpl<Rectangle> for Primitive {
    open spec fn obeys_from_spec() -> bool {
        true
    }

    open spec fn from_spec(rectangle: Rectangle) -> Primitive {
        Primitive::Rectangle(rectangle)
    }
}

/// The smaller of two lengths.
pub open spec fn shorter(a: int, b: int) -> int {
    if a <= b {
        a
    } else {
        b
    }
}

impl Primitive {
    /// The shape moved by the position of `motion`.
    pub open spec fn placed(self, motion: physics::Pose) -> Primitive {
        match self {
            Primitive::Circle(circle) => Primitive::Circle(circle.moved(motion)),
            Primitive::Rectangle(rectangle) => Primitive::Rectangle(rectangle.moved(motion)),
        }
    }

    /// The circle that stands for the shape in the physics engine: a circle
    /// itself, and for a rectangle the largest circle around its centre that
    /// fits inside. Halves are rounded down to the lattice.
    pub open spec fn footprint(self) -> physics::Circle {
        match self {
            Primitive::Circle(circle) => physics::Circle {
                origin: circle.origin,
                radius: circle.radius,
            },
            Primitive::Rectangle(rectangle) => physics::Circle {
                origin: (
                    saturate(rectangle.origin.0 + rectangle.dimensions.0 as int / 2),
                    saturate(rectangle.origin.1 + rectangle.dimensions.1 as int / 2),
                ),
                radius: (shorter(rectangle.dimensions.0 as int, rectangle.dimensions.1 as int)
                    / 2) as i64,
            },
        }
    }

    /// The shape moved by the position of `motion`; the shape itself is left
    /// as it is.
    pub fn with_motion(&self, motion: &physics::Pose) -> (shape: Primitive)
        ensures
            shape == self.placed(*motion),
    {
        match self {
            Primitive::Circle(circle) => Primitive::Circle(circle.with_motion(motion)),
            Primitive::Rectangle(rectangle) => Primitive::Rectangle(
                rectangle.with_motion(motion),
            ),
        }
    }

    /// Computes the physics footprint of the shape.
    pub fn physics_footprint(&self) -> (circle: physics::Circle)
        ensures
            circle == self.footprint(),
    {
        match self {
            Primitive::Circle(circle) => physics::Circle {
                origin: circle.origin,
                radius: circle.radius,
            },
            Primitive::Rectangle(rectangle) => {
                let half_width = half(rectangle.dimensions.0);
                let half_height = half(rectangle.dimensions.1);
                physics::Circle {
                    origin: (
                        offset_by(rectangle.origin.0, half_width),
                        offset_by(rectangle.origin.1, half_height),
                    ),
                    radius: if half_width <= half_height {
                        half_width
                    } else {
                        half_height
                    },
                }
            },
        }
    }
}

/// The footprint of a rectangle lies inside the rectangle: with sides that
/// are not negative and corners that an `i64` can hold, the circle around
/// the centre reaches no further than each of the four edges, and its
/// radius is half the shorter side.
pub proof fn lemma_rectangle_footprint_is_inscribed(rectangle: Rectangle)
    requires
        rectangle.dimensions.0 >= 0,
        rectangle.dimensions.1 >= 0,
        rectangle.origin.0 + rectangle.dimensions.0 <= i64::MAX,
        rectangle.origin.1 + rectangle.dimensions.1 <= i64::MAX,
    ensures
        ({
            let circle = Primitive::Rectangle(rectangle).footprint();
            let left = rectangle.origin.0 as int;
            let bottom = rectangle.origin.1 as int;
            let width = rectangle.dimensions.0 as int;
            let height = rectangle.dimensions.1 as int;
            &&& circle.radius == shorter(width, height) / 2
            &&& circle.origin.0 == left + width / 2
            &&& circle.origin.1 == bottom + height / 2
            &&& left <= circle.origin.0 - circle.radius
            &&& circle.origin.0 + circle.radius <= left + width
            &&& bottom <= circle.origin.1 - circle.radius
            &&& circle.origin.1 + circle.radius <= bottom + height
        }),
{
}

} // verus!
