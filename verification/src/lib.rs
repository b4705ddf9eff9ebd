//! Verified core logic for a collection of small interactive grid demos:
//! a boid flock, resizable grids with click-to-toggle cells, motor-driven
//! color oscillation, shader parameter feeds, and menu navigation.
//!
//! Geometry and time are modelled in fixed-point integer units
//! (a thousandth of a pixel, a millisecond), so that the arithmetic the
//! demos perform can be stated and proved exactly.

use vstd::prelude::*;

pub mod drag;
pub mod flock;
pub mod grid;
pub mod menu;
pub mod motor;
pub mod mouse;
pub mod oslog;
pub mod resize;
pub mod rng;
pub mod shader;
pub mod tiles;

verus! {

/// The absolute value.
pub open spec fn abs_of(s: int) -> int {
    if s >= 0 {
        s
    } else {
        -s
    }
}

/// A two-component screen position or displacement in thousandths of a
/// pixel.
#[derive(Clone, Copy, PartialEq, Eq, Structural, Debug)]
pub struct Vec2Fx {
    pub x: i64,
    pub y: i64,
}

} // verus!
