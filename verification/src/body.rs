//! The simulated entities and the bounds of the fixed-point world.
//!
//! Every length, coordinate and area is an integer count of milliunits
//! (one thousandth of a world unit). The bounds below keep all intermediate
//! products of one physics step inside `i128`.

use vstd::prelude::*;

verus! {

/// Largest magnitude of a coordinate, in milliunits.
pub const MAX_COORD: i64 = 1_000_000_000;

/// Largest magnitude of a velocity component, in milliunits per time unit.
pub const MAX_VEL: i64 = 1_000_000_000;

/// Largest area of one body, in milli-square-units.
pub const MAX_AREA: i64 = 100_000_000;

/// Most bodies a simulation state may hold.
pub const MAX_BODIES: usize = 10_000;

/// An RGBA color, fixed at a body's creation.
#[derive(Clone, Copy, PartialEq, Eq, Structural, Debug)]
pub struct Color {
    pub r: u8,
    pub g: u8,
    pub b: u8,
    pub a: u8,
}

/// One simulated body: a circle whose area doubles as its mass.
#[derive(Clone, Copy, PartialEq, Eq, Structural, Debug)]
pub struct Body {
    /// Position, in milliunits.
    pub x: i64,
    pub y: i64,
    /// Velocity, in milliunits per time unit.
    pub vx: i64,
    pub vy: i64,
    /// Area and mass, in milli-square-units; always positive.
    pub area: i64,
    pub color: Color,
}

/// A circle given by its center and its area, as handed to the overlap scan.
#[derive(Clone, Copy, PartialEq, Eq, Structural, Debug)]
pub struct Circle {
    pub x: i64,
    pub y: i64,
    pub area: i64,
}

/// A body is well formed when all its quantities lie inside the world bounds
/// and its area is positive.
pub open spec fn body_wf(b: Body) -> bool {
    &&& -MAX_COORD <= b.x <= MAX_COORD
    &&& -MAX_COORD <= b.y <= MAX_COORD
    &&& -MAX_VEL <= b.vx <= MAX_VEL
    &&& -MAX_VEL <= b.vy <= MAX_VEL
    &&& 0 < b.area <= MAX_AREA
}

/// A circle handed to the overlap scan is well formed when it lies inside the
/// world bounds; its area may be zero (a bare point probe).
pub open spec fn circle_wf(c: Circle) -> bool {
    &&& -MAX_COORD <= c.x <= MAX_COORD
    &&& -MAX_COORD <= c.y <= MAX_COORD
    &&& 0 <= c.area <= MAX_AREA
}

/// The circle that a body occupies.
pub open spec fn circle_of(b: Body) -> Circle {
    Circle { x: b.x, y: b.y, area: b.area }
}

/// Every body of a sequence is well formed.
pub open spec fn all_wf(s: Seq<Body>) -> bool {
    forall|i: int| 0 <= i < s.len() ==> body_wf(#[trigger] s[i])
}

} // verus!
