//! A two-dimensional motion simulation on an integer lattice.
//!
//! Lengths are whole numbers of a length quantum and time is a whole number
//! of ticks; a velocity is a number of quanta per tick. With these units one
//! integration step is an exact integer product, and every coordinate that
//! would leave the range of `i64` stops at the nearest bound.

pub mod controls;
pub mod model;
pub mod navigation;
pub mod numeric;
pub mod physics;
pub mod renderer;
pub mod simulation;
pub mod view;
