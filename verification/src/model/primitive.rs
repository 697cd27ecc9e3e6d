//! Circles, rectangles and their colour.

use vstd::prelude::*;
use crate::numeric::{translate, translated, Vector};
use crate::physics::Pose;

verus! {

/// A colour with eight bits for each of alpha, red, green and blue.
#[derive(Clone, Copy, Debug, PartialEq, Eq)]
pub struct Color {
    pub alpha: u8,
    pub red: u8,
    pub green: u8,
    pub blue: u8,
}

/// A circle; its origin is its centre.
#[derive(Clone, Copy, Debug, PartialEq, Eq)]
pub struct Circle {
    pub origin: Vector,
    pub radius: i64,
    pub color: Color,
}

/// A rectangle; its origin is the corner with the smallest coordinates.
#[derive(Clone, Copy, Debug, PartialEq, Eq)]
pub struct Rectangle {
    pub origin: Vector,
    pub dimensions: Vector,
    pub color: Color,
}

impl Color {
    /// An opaque colour.
    pub fn from_rgb(red: u8, green: u8, blue: u8) -> (color: Color)
        ensures
            color == (Color { alpha: 255, red, green, blue }),
    {
        Color { alpha: 255, red, green, blue }
    }

    /// Opaque black.
    pub fn black() -> (color: Color)
        ensures
            color == (Color { alpha: 255, red: 0, green: 0, blue: 0 }),
    {
        Color::from_rgb(0, 0, 0)
    }

    /// Opaque white.
    pub fn white() -> (color: Color)
        ensures
            color == (Color { alpha: 255, red: 255, green: 255, blue: 255 }),
    {
        Color::from_rgb(255, 255, 255)
    }
}

impl Circle {
    /// The circle with its centre moved by the position of `motion`.
    pub open spec fn moved(self, motion: Pose) -> Circle {
        Circle {
            origin: translated(
                self.origin,
                (motion.position.0 as int, motion.position.1 as int),
            ),
            ..self
        }
    }

    /// A copy of the circle, moved by the position of `motion`.
    pub fn with_motion(&self, motion: &Pose) -> (circle: Circle)
        ensures
            circle == self.moved(*motion),
    {
        Circle {
            origin: translate(self.origin, motion.position),
            radius: self.radius,
            color: self.color,
        }
    }
}

impl Rectangle {
    /// The rectangle with its corner moved by the position of `motion`.
    pub open spec fn moved(self, motion: Pose) -> Rectangle {
        Rectangle {
            origin: translated(
                self.origin,
                (motion.position.0 as int, motion.position.1 as int),
            ),
            ..self
        }
    }

    /// A copy of the rectangle, moved by the position of `motion`.
    pub fn with_motion(&self, motion: &Pose) -> (rectangle: Rectangle)
        ensures
            rectangle == self.moved(*motion),
    {
        Rectangle {
            origin: translate(self.origin, motion.position),
            dimensions: self.dimensions,
            color: self.color,
        }
    }
}

} // verus!
