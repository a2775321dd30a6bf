//! A small 2D N-body gravity simulation kernel.
//!
//! Bodies are circles with a position, a velocity, a color and an area that
//! doubles as their mass. Each step sums pairwise gravitational attraction,
//! advances every body by a fixed time step, and merges overlapping circles.
//!
//! All quantities are fixed-point integers in milliunits (one thousandth of a
//! world unit), so every computation here is exact integer arithmetic.

use vstd::prelude::*;

pub mod body;
pub mod geom;
pub mod merge;
pub mod num;
pub mod physics;
pub mod sim;

verus! {

/// Flips a boolean play/pause flag.
pub fn opposite(b: bool) -> (r: bool)
    ensures
        r == !b,
{
    if b {
        false
    } else {
        true
    }
}

} // verus!
