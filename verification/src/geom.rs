//! Circle geometry: the radius a body's area generates, Euclidean distance,
//! and the strict overlap test, all in fixed-point milliunits.

use crate::body::{circle_wf, Circle, MAX_AREA, MAX_COORD};
use crate::num::{isqrt_u64, lemma_sqf_bounds, sqf};
use vstd::arithmetic::div_mod::{
    lemma_div_by_multiple, lemma_div_is_ordered, lemma_div_pos_is_pos, lemma_fundamental_div_mod,
    lemma_mod_division_less_than_divisor,
};
use vstd::prelude::*;

verus! {

/// Numerator of the rational approximation 355/113 of pi.
pub const PI_NUM: i64 = 355;

/// Denominator of the approximation of pi, times the fixed-point scale of
/// one thousand milliunits per unit.
pub const PI_DEN_SCALED: i64 = 113_000;

/// Largest radius any admissible area can generate, in milliunits.
pub const RAD_MAX: i64 = 200_000;

/// Largest distance between two in-bounds points, rounded up, in milliunits.
pub const DIST_MAX: i64 = 3_000_000_000;

/// The radius of a circle of the given area: the floor of the square root of
/// `area / pi`, carried out at the milliunit scale.
pub open spec fn rad_of(area: int) -> int
    recommends
        area >= 0,
{
    sqf(((area * (PI_DEN_SCALED as int)) / (PI_NUM as int)) as nat) as int
}

/// The area of a circle of the given radius: `pi * radius^2`, carried back
/// to the milliunit scale. The inverse, up to rounding, of `rad_of`.
pub open spec fn area_of_radius_spec(r: int) -> int
    recommends
        r >= 0,
{
    ((r * r) * (PI_NUM as int)) / (PI_DEN_SCALED as int)
}

/// Euclidean distance between two points, rounded down to a milliunit.
pub open spec fn dist_fp(x1: int, y1: int, x2: int, y2: int) -> int {
    sqf(((x1 - x2) * (x1 - x2) + (y1 - y2) * (y1 - y2)) as nat) as int
}

/// Two circles overlap when the distance of their centers is strictly below
/// the sum of their radii; circles that merely touch do not overlap.
pub open spec fn circles_overlap_spec(c1: Circle, c2: Circle) -> bool {
    dist_fp(c1.x as int, c1.y as int, c2.x as int, c2.y as int) < rad_of(c1.area as int) + rad_of(
        c2.area as int,
    )
}

/// The floor square root never exceeds a bound whose next square is above the
/// argument.
pub proof fn lemma_sqf_upper(x: nat, b: nat)
    requires
        x < (b + 1) * (b + 1),
    ensures
        sqf(x) <= b,
{
    lemma_sqf_bounds(x);
    if sqf(x) > b {
        assert((b + 1) * (b + 1) <= sqf(x) * sqf(x)) by (nonlinear_arith)
            requires
                b + 1 <= sqf(x),
        ;
        assert(false);
    }
}

/// An admissible area generates a radius of at most `RAD_MAX` milliunits.
pub proof fn lemma_rad_of_bound(area: int)
    requires
        0 <= area <= MAX_AREA,
    ensures
        0 <= rad_of(area) <= RAD_MAX,
{
    let x = (area * PI_DEN_SCALED) / (PI_NUM as int);
    lemma_div_pos_is_pos(area * PI_DEN_SCALED, PI_NUM as int);
    lemma_div_is_ordered(area * PI_DEN_SCALED, MAX_AREA * PI_DEN_SCALED, PI_NUM as int);
    assert(x <= 31_830_985_915);
    assert(31_830_985_915 < (200_000 + 1) * (200_000 + 1)) by (nonlinear_arith);
    lemma_sqf_upper(x as nat, 200_000);
}

/// Any positive area generates a radius of at least one milliunit, so a
/// body's circle always overlaps itself.
pub proof fn lemma_rad_of_pos(area: int)
    requires
        area >= 1,
    ensures
        rad_of(area) >= 1,
{
    let x = (area * PI_DEN_SCALED) / (PI_NUM as int);
    lemma_div_is_ordered(PI_DEN_SCALED as int, area * PI_DEN_SCALED, PI_NUM as int);
    assert(x >= 318);
    lemma_sqf_bounds(x as nat);
    if sqf(x as nat) == 0 {
        assert((sqf(x as nat) + 1) * (sqf(x as nat) + 1) == 1) by (nonlinear_arith)
            requires
                sqf(x as nat) == 0,
        ;
        assert(false);
    }
}

/// A circle of positive area overlaps itself: its self-distance is zero and
/// its radius is positive.
pub proof fn lemma_self_overlap(c: Circle)
    requires
        c.area >= 1,
    ensures
        circles_overlap_spec(c, c),
{
    assert((c.x - c.x) * (c.x - c.x) + (c.y - c.y) * (c.y - c.y) == 0) by (nonlinear_arith);
    assert(dist_fp(c.x as int, c.y as int, c.x as int, c.y as int) == 0);
    lemma_rad_of_pos(c.area as int);
}

/// The distance of two in-bounds points is at most `DIST_MAX` milliunits.
pub proof fn lemma_dist_bound(x1: int, y1: int, x2: int, y2: int)
    requires
        -MAX_COORD <= x1 <= MAX_COORD,
        -MAX_COORD <= y1 <= MAX_COORD,
        -MAX_COORD <= x2 <= MAX_COORD,
        -MAX_COORD <= y2 <= MAX_COORD,
    ensures
        0 <= dist_fp(x1, y1, x2, y2) <= DIST_MAX,
{
    let dx = x1 - x2;
    let dy = y1 - y2;
    assert(dx * dx <= 4_000_000_000_000_000_000) by (nonlinear_arith)
        requires
            -2_000_000_000 <= dx <= 2_000_000_000,
    ;
    assert(dy * dy <= 4_000_000_000_000_000_000) by (nonlinear_arith)
        requires
            -2_000_000_000 <= dy <= 2_000_000_000,
    ;
    assert(dx * dx >= 0) by (nonlinear_arith);
    assert(dy * dy >= 0) by (nonlinear_arith);
    let d2 = (dx * dx + dy * dy) as nat;
    assert(d2 < (3_000_000_000 + 1) * (3_000_000_000 + 1)) by (nonlinear_arith)
        requires
            d2 <= 8_000_000_000_000_000_000,
    ;
    lemma_sqf_upper(d2, 3_000_000_000nat);
    lemma_sqf_bounds(d2);
}

/// The radius a body's area generates, in milliunits.
pub fn radius_from_area(area: i64) -> (r: i64)
    requires
        0 <= area <= MAX_AREA,
    ensures
        r == rad_of(area as int),
        0 <= r <= RAD_MAX,
{
    let scaled: u64 = (area as u64) * 113_000 / 355;
    proof {
        assert(scaled == (area * PI_DEN_SCALED) / (PI_NUM as int));
        lemma_rad_of_bound(area as int);
    }
    let r64 = isqrt_u64(scaled);
    r64 as i64
}

/// The area that a circle of radius `r` encloses, in milli-square-units.
pub fn area_of_radius(r: i64) -> (a: i64)
    requires
        0 <= r <= RAD_MAX,
    ensures
        a == area_of_radius_spec(r as int),
{
    proof {
        assert(r * r <= 40_000_000_000) by (nonlinear_arith)
            requires
                0 <= r <= 200_000,
        ;
        assert(r * r >= 0) by (nonlinear_arith);
    }
    let sq: u64 = (r as u64) * (r as u64);
    (sq * 355 / 113_000) as i64
}

/// Euclidean distance of two in-bounds points, rounded down to a milliunit.
pub fn distance_fp(x1: i64, y1: i64, x2: i64, y2: i64) -> (d: i64)
    requires
        -MAX_COORD <= x1 <= MAX_COORD,
        -MAX_COORD <= y1 <= MAX_COORD,
        -MAX_COORD <= x2 <= MAX_COORD,
        -MAX_COORD <= y2 <= MAX_COORD,
    ensures
        d == dist_fp(x1 as int, y1 as int, x2 as int, y2 as int),
        0 <= d <= DIST_MAX,
{
    let dx: i64 = x1 - x2;
    let dy: i64 = y1 - y2;
    proof {
        assert(dx * dx <= 4_000_000_000_000_000_000) by (nonlinear_arith)
            requires
                -2_000_000_000 <= dx <= 2_000_000_000,
        ;
        assert(dy * dy <= 4_000_000_000_000_000_000) by (nonlinear_arith)
            requires
                -2_000_000_000 <= dy <= 2_000_000_000,
        ;
        assert(dx * dx >= 0) by (nonlinear_arith);
        assert(dy * dy >= 0) by (nonlinear_arith);
        lemma_dist_bound(x1 as int, y1 as int, x2 as int, y2 as int);
    }
    let d2: i128 = (dx as i128) * (dx as i128) + (dy as i128) * (dy as i128);
    let d64 = isqrt_u64(d2 as u64);
    d64 as i64
}

/// Whether two circles overlap: strictly closer than the sum of their radii.
pub fn circles_overlap(node_one: Circle, node_two: Circle) -> (r: bool)
    requires
        circle_wf(node_one),
        circle_wf(node_two),
    ensures
        r == circles_overlap_spec(node_one, node_two),
{
    let d = distance_fp(node_one.x, node_one.y, node_two.x, node_two.y);
    let r1 = radius_from_area(node_one.area);
    let r2 = radius_from_area(node_two.area);
    if d < r1 + r2 {
        true
    } else {
        false
    }
}

/// Two circles overlap exactly when their centers are strictly closer than
/// the sum of the radii their areas generate; at exactly the touching
/// distance they do not overlap.
pub proof fn law_overlap_strict(c1: Circle, c2: Circle)
    ensures
        circles_overlap_spec(c1, c2) <==> dist_fp(c1.x as int, c1.y as int, c2.x as int, c2.y as int)
            < rad_of(c1.area as int) + rad_of(c2.area as int),
        dist_fp(c1.x as int, c1.y as int, c2.x as int, c2.y as int) == rad_of(c1.area as int)
            + rad_of(c2.area as int) ==> !circles_overlap_spec(c1, c2),
{
}

/// Round-trip law relating a body's area to the radius it generates: with pi
/// approximated as 355/113, the area lies between `pi * r^2` and
/// `pi * (r + 1)^2` at the milliunit scale, and mapping the radius back to an
/// area undershoots the starting area by less than `(710 * r + 113355) / 113000`
/// milli-square-units.
pub proof fn law_radius_area_round_trip(area: int)
    requires
        0 <= area <= MAX_AREA,
    ensures
        PI_NUM * (rad_of(area) * rad_of(area)) <= PI_DEN_SCALED * area,
        PI_DEN_SCALED * area < PI_NUM * ((rad_of(area) + 1) * (rad_of(area) + 1)),
        area_of_radius_spec(rad_of(area)) <= area,
        PI_DEN_SCALED * (area - area_of_radius_spec(rad_of(area))) < 710 * rad_of(area) + PI_NUM
            + PI_DEN_SCALED,
{
    let x = (area * PI_DEN_SCALED) / (PI_NUM as int);
    lemma_div_pos_is_pos(area * PI_DEN_SCALED, PI_NUM as int);
    lemma_sqf_bounds(x as nat);
    let r = rad_of(area);
    assert(r == sqf(x as nat));
    assert(r * r <= x);
    assert(x < (r + 1) * (r + 1));

    lemma_fundamental_div_mod(area * PI_DEN_SCALED, PI_NUM as int);
    lemma_mod_division_less_than_divisor(area * PI_DEN_SCALED, PI_NUM as int);
    // area * 113000 == 355 * x + m with 0 <= m < 355
    assert(PI_NUM * x <= PI_DEN_SCALED * area);
    assert(PI_DEN_SCALED * area < PI_NUM * (x + 1));

    // first clause
    assert(PI_NUM * (r * r) <= PI_NUM * x);

    // second clause
    assert(PI_NUM * (x + 1) <= PI_NUM * ((r + 1) * (r + 1)));

    // third clause
    let a2 = area_of_radius_spec(r);
    assert(a2 == ((r * r) * PI_NUM) / (PI_DEN_SCALED as int));
    assert((r * r) * PI_NUM <= area * PI_DEN_SCALED);
    lemma_div_is_ordered((r * r) * PI_NUM, area * PI_DEN_SCALED, PI_DEN_SCALED as int);
    lemma_div_by_multiple(area, PI_DEN_SCALED as int);
    assert((area * PI_DEN_SCALED) / (PI_DEN_SCALED as int) == area);

    // fourth clause
    lemma_fundamental_div_mod((r * r) * PI_NUM, PI_DEN_SCALED as int);
    lemma_mod_division_less_than_divisor((r * r) * PI_NUM, PI_DEN_SCALED as int);
    assert(PI_DEN_SCALED * a2 > PI_NUM * (r * r) - PI_DEN_SCALED);
    assert((r + 1) * (r + 1) == r * r + 2 * r + 1) by (nonlinear_arith);
    assert(PI_DEN_SCALED * area < PI_NUM * (r * r) + 710 * r + PI_NUM);
}

} // verus!
