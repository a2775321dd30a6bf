use gravity_sim::body::{Body, Circle, Color};
use gravity_sim::geom::{area_of_radius, circles_overlap, distance_fp, radius_from_area};
use gravity_sim::merge::calc_overlaps;
use gravity_sim::opposite;
use gravity_sim::physics::calc_physx;

fn body_at(x: i64, y: i64, area: i64) -> Body {
    Body {
        x,
        y,
        vx: 0,
        vy: 0,
        area,
        color: Color { r: 255, g: 255, b: 255, a: 255 },
    }
}

#[test]
fn radius_of_ten_units_area() {
    // area 10.000 square units -> radius floor(sqrt(10 / pi)) = 1.784 units
    assert_eq!(radius_from_area(10_000), 1784);
}

#[test]
fn radius_of_zero_area_is_zero() {
    assert_eq!(radius_from_area(0), 0);
}

#[test]
fn radius_grows_with_area() {
    assert_eq!(radius_from_area(20_000), 2523);
    assert_eq!(radius_from_area(100_000), 5641);
    assert!(radius_from_area(20_000) > radius_from_area(10_000));
}

#[test]
fn area_radius_round_trip_undershoots_slightly() {
    let r = radius_from_area(10_000);
    let back = area_of_radius(r);
    assert_eq!(back, 9_998);
    assert!(back <= 10_000);
    assert!(10_000 - back < 10);
}

#[test]
fn round_trip_holds_for_many_areas() {
    for area in [1i64, 50, 10_000, 123_456, 100_000_000] {
        let r = radius_from_area(area);
        let back = area_of_radius(r);
        assert!(back <= area);
        // The undershoot is below (710 * r + 113355) / 113000 + 1.
        assert!(113_000 * (area - back) < 710 * r + 113_355 + 113_000);
    }
}

#[test]
fn distance_is_euclidean_floor() {
    assert_eq!(distance_fp(0, 0, 3000, 4000), 5000);
    assert_eq!(distance_fp(0, 0, 1000, 1000), 1414);
    assert_eq!(distance_fp(-500, 0, 500, 0), 1000);
}

#[test]
fn touching_circles_do_not_overlap() {
    // Each area 10.000 has radius 1784; centers exactly 3568 apart touch.
    let c1 = Circle { x: 0, y: 0, area: 10_000 };
    let c2 = Circle { x: 3568, y: 0, area: 10_000 };
    assert!(!circles_overlap(c1, c2));
}

#[test]
fn circles_one_milliunit_closer_overlap() {
    let c1 = Circle { x: 0, y: 0, area: 10_000 };
    let c2 = Circle { x: 3567, y: 0, area: 10_000 };
    assert!(circles_overlap(c1, c2));
}

#[test]
fn unequal_circles_touch_at_radius_sum() {
    // radius(10.000) = 1784 and radius(20.000) = 2523: the boundary is 4307.
    let c1 = Circle { x: 0, y: 0, area: 10_000 };
    let at_sum = Circle { x: 4307, y: 0, area: 20_000 };
    let inside = Circle { x: 4306, y: 0, area: 20_000 };
    assert!(!circles_overlap(c1, at_sum));
    assert!(circles_overlap(c1, inside));
}

#[test]
fn far_circles_do_not_overlap() {
    let c1 = Circle { x: 0, y: 0, area: 10_000 };
    let c2 = Circle { x: 100_000, y: 100_000, area: 10_000 };
    assert!(!circles_overlap(c1, c2));
}

#[test]
fn step_keeps_count_area_and_color() {
    let mut state = vec![
        body_at(0, 0, 10_000),
        body_at(100_000, 0, 20_000),
        body_at(0, 200_000, 30_000),
    ];
    let before = state.clone();
    calc_physx(&mut state);
    assert_eq!(state.len(), 3);
    for (old, new) in before.iter().zip(state.iter()) {
        assert_eq!(new.area, old.area);
        assert_eq!(new.color, old.color);
    }
}

#[test]
fn touching_pair_gets_equal_and_opposite_kick() {
    // Two equal areas at rest whose circles exactly touch: after one step
    // the kicks are nonzero, equal and opposite.
    let mut state = vec![body_at(0, 0, 10_000), body_at(3568, 0, 10_000)];
    calc_physx(&mut state);
    assert_eq!(state[0].vx, 13_746);
    assert_eq!(state[1].vx, -13_746);
    assert_ne!(state[0].vx, 0);
    assert_eq!(state[0].vx, -state[1].vx);
    assert_eq!(state[0].vy, 0);
    assert_eq!(state[1].vy, 0);
    // Each body then moves by its new velocity times the time step.
    assert_eq!(state[0].x, 481);
    assert_eq!(state[1].x, 3568 - 481);
}

#[test]
fn far_pair_feels_no_measurable_pull() {
    // At a large distance the truncated force underflows to zero.
    let mut state = vec![body_at(0, 0, 10), body_at(900_000_000, 0, 10)];
    calc_physx(&mut state);
    assert_eq!(state[0].vx, 0);
    assert_eq!(state[1].vx, 0);
}

#[test]
fn merge_absorbs_smaller_into_larger() {
    let mut a = body_at(0, 0, 20_000);
    a.vx = 5_000;
    let b = body_at(1000, 0, 10_000);
    let mut state = vec![a, b];
    let mut selected: Option<usize> = None;
    calc_overlaps(&mut state, &mut selected);
    assert_eq!(state.len(), 1);
    let m = state[0];
    assert_eq!(m.area, 30_000);
    assert_eq!(m.x, 0);
    assert_eq!(m.y, 0);
    // velocity = a.v / a.area + b.v / b.area at the milliunit scale
    assert_eq!(m.vx, 250);
    assert_eq!(m.vy, 0);
    assert_eq!(m.color, a.color);
    assert_eq!(selected, None);
}

#[test]
fn merge_moves_selection_of_absorbed_body() {
    let a = body_at(0, 0, 20_000);
    let b = body_at(1000, 0, 10_000);
    let mut state = vec![a, b];
    let mut selected: Option<usize> = Some(1);
    calc_overlaps(&mut state, &mut selected);
    assert_eq!(state.len(), 1);
    assert_eq!(selected, Some(0));
}

#[test]
fn merge_keeps_position_of_larger_side() {
    // The visited body is the smaller one: the survivor sits at the larger
    // body's position but keeps the absorber's color and count drops by one.
    let small = body_at(0, 0, 10_000);
    let large = body_at(1000, 0, 20_000);
    let mut state = vec![small, large];
    let mut selected: Option<usize> = None;
    calc_overlaps(&mut state, &mut selected);
    assert_eq!(state.len(), 1);
    assert_eq!(state[0].area, 30_000);
    assert_eq!(state[0].x, 1000);
}

#[test]
fn separated_bodies_never_merge() {
    let mut state = vec![body_at(0, 0, 10_000), body_at(500_000, 0, 10_000)];
    let mut selected: Option<usize> = Some(1);
    calc_overlaps(&mut state, &mut selected);
    assert_eq!(state.len(), 2);
    assert_eq!(selected, Some(1));
}

#[test]
fn opposite_flips() {
    assert!(!opposite(true));
    assert!(opposite(false));
}
