//! One step of the gravity simulation: pairwise attraction summed over a
//! snapshot of all bodies, then a semi-implicit Euler update of every body.
//!
//! Forces follow `-G * area_i * area_j / dist^2` along the line between the
//! two centers, carried out exactly in fixed-point integers: one truncating
//! division by the cube of the center distance. A pair at zero distance
//! exerts no force, which takes the place of the singularity at distance
//! zero. Velocities and positions saturate at the world bounds.

use crate::body::{all_wf, body_wf, Body, MAX_BODIES, MAX_COORD, MAX_VEL};
use crate::num::{
    clamp_i128, clamp_spec, isqrt_u64, lemma_clamp_neg, lemma_sqf_bounds, lemma_tdiv_bound,
    lemma_tdiv_neg, sqf, tdiv, tdiv_i128,
};
use vstd::prelude::*;

verus! {

/// The gravitational constant of the toy world, times the fixed-point scale
/// of one thousand milliunits per unit.
pub const GRAVITY_SCALED: i64 = 500_000;

/// The fixed time step is `TIME_NUM / TIME_DEN` time units.
pub const TIME_NUM: i64 = 35;

/// Denominator of the fixed time step; also the fixed-point scale.
pub const TIME_DEN: i64 = 1000;

/// Largest magnitude any single pair force can reach, in force milliunits.
pub const PAIR_FORCE_MAX: i128 = 10_000_000_000_000_000_000_000_000_000_000;

/// The horizontal force that body `b` exerts on body `a`.
pub open spec fn pair_force_x(a: Body, b: Body) -> int {
    let dx = a.x - b.x;
    let dy = a.y - b.y;
    let d2 = dx * dx + dy * dy;
    if d2 == 0 {
        0
    } else {
        let d = sqf(d2 as nat) as int;
        tdiv(-((GRAVITY_SCALED as int) * (a.area as int) * (b.area as int) * dx), (d * d) * d)
    }
}

/// The vertical force that body `b` exerts on body `a`.
pub open spec fn pair_force_y(a: Body, b: Body) -> int {
    let dx = a.x - b.x;
    let dy = a.y - b.y;
    let d2 = dx * dx + dy * dy;
    if d2 == 0 {
        0
    } else {
        let d = sqf(d2 as nat) as int;
        tdiv(-((GRAVITY_SCALED as int) * (a.area as int) * (b.area as int) * dy), (d * d) * d)
    }
}

/// Horizontal net force on body `i` from the bodies with index below `n`.
pub open spec fn force_x_upto(s: Seq<Body>, i: int, n: int) -> int
    decreases n,
{
    if n <= 0 {
        0
    } else {
        force_x_upto(s, i, n - 1) + if n - 1 == i {
            0
        } else {
            pair_force_x(s[i], s[n - 1])
        }
    }
}

/// Vertical net force on body `i` from the bodies with index below `n`.
pub open spec fn force_y_upto(s: Seq<Body>, i: int, n: int) -> int
    decreases n,
{
    if n <= 0 {
        0
    } else {
        force_y_upto(s, i, n - 1) + if n - 1 == i {
            0
        } else {
            pair_force_y(s[i], s[n - 1])
        }
    }
}

/// Horizontal net force on body `i` from every other body of the snapshot.
pub open spec fn force_x(s: Seq<Body>, i: int) -> int {
    force_x_upto(s, i, s.len() as int)
}

/// Vertical net force on body `i` from every other body of the snapshot.
pub open spec fn force_y(s: Seq<Body>, i: int) -> int {
    force_y_upto(s, i, s.len() as int)
}

/// Body `i` after one step: acceleration is the net force over the body's
/// own area, velocity gains acceleration times the time step, position gains
/// the new velocity times the time step; both saturate at the world bounds.
pub open spec fn stepped_body(s: Seq<Body>, i: int) -> Body {
    let b = s[i];
    let dvx = tdiv(force_x(s, i) * (TIME_NUM as int), b.area as int);
    let dvy = tdiv(force_y(s, i) * (TIME_NUM as int), b.area as int);
    let nvx = clamp_spec(b.vx + dvx, -(MAX_VEL as int), MAX_VEL as int);
    let nvy = clamp_spec(b.vy + dvy, -(MAX_VEL as int), MAX_VEL as int);
    let nx = clamp_spec(
        b.x + tdiv(nvx * (TIME_NUM as int), TIME_DEN as int),
        -(MAX_COORD as int),
        MAX_COORD as int,
    );
    let ny = clamp_spec(
        b.y + tdiv(nvy * (TIME_NUM as int), TIME_DEN as int),
        -(MAX_COORD as int),
        MAX_COORD as int,
    );
    Body {
        x: nx as i64,
        y: ny as i64,
        vx: nvx as i64,
        vy: nvy as i64,
        area: b.area,
        color: b.color,
    }
}

/// No single pair force exceeds `PAIR_FORCE_MAX` in magnitude.
pub proof fn lemma_pair_force_bound(a: Body, b: Body)
    requires
        body_wf(a),
        body_wf(b),
    ensures
        -PAIR_FORCE_MAX <= pair_force_x(a, b) <= PAIR_FORCE_MAX,
        -PAIR_FORCE_MAX <= pair_force_y(a, b) <= PAIR_FORCE_MAX,
{
    let dx = a.x - b.x;
    let dy = a.y - b.y;
    let d2 = dx * dx + dy * dy;
    if d2 != 0 {
        let d = sqf(d2 as nat) as int;
        lemma_sqf_bounds(d2 as nat);
        assert(d2 >= 0) by (nonlinear_arith)
            requires
                d2 == dx * dx + dy * dy,
        ;
        assert(d >= 1);
        assert((d * d) * d >= 1) by (nonlinear_arith)
            requires
                d >= 1,
        ;
        let numx = (GRAVITY_SCALED as int) * (a.area as int) * (b.area as int) * dx;
        let numy = (GRAVITY_SCALED as int) * (a.area as int) * (b.area as int) * dy;
        assert(-PAIR_FORCE_MAX <= numx <= PAIR_FORCE_MAX) by (nonlinear_arith)
            requires
                numx == 500_000 * (a.area as int) * (b.area as int) * dx,
                0 < a.area <= 100_000_000,
                0 < b.area <= 100_000_000,
                -2_000_000_000 <= dx <= 2_000_000_000,
        ;
        assert(-PAIR_FORCE_MAX <= numy <= PAIR_FORCE_MAX) by (nonlinear_arith)
            requires
                numy == 500_000 * (a.area as int) * (b.area as int) * dy,
                0 < a.area <= 100_000_000,
                0 < b.area <= 100_000_000,
                -2_000_000_000 <= dy <= 2_000_000_000,
        ;
        lemma_tdiv_bound(-numx, (d * d) * d);
        lemma_tdiv_bound(-numy, (d * d) * d);
    }
}

/// The net force from the first `n` bodies grows at most linearly with `n`.
pub proof fn lemma_force_upto_bound(s: Seq<Body>, i: int, n: int)
    requires
        all_wf(s),
        0 <= i < s.len(),
        0 <= n <= s.len(),
    ensures
        -n * PAIR_FORCE_MAX <= force_x_upto(s, i, n) <= n * PAIR_FORCE_MAX,
        -n * PAIR_FORCE_MAX <= force_y_upto(s, i, n) <= n * PAIR_FORCE_MAX,
    decreases n,
{
    if n > 0 {
        lemma_force_upto_bound(s, i, n - 1);
        if n - 1 != i {
            lemma_pair_force_bound(s[i], s[n - 1]);
        }
    }
}

/// The gravitational pull of two bodies on one another is equal and opposite.
pub proof fn law_mutual_force_opposite(a: Body, b: Body)
    ensures
        pair_force_x(a, b) == -pair_force_x(b, a),
        pair_force_y(a, b) == -pair_force_y(b, a),
{
    assert((b.x - a.x) * (b.x - a.x) + (b.y - a.y) * (b.y - a.y) == (a.x - b.x) * (a.x - b.x) + (
    a.y - b.y) * (a.y - b.y)) by (nonlinear_arith);
    assert((a.x - b.x) * (a.x - b.x) + (a.y - b.y) * (a.y - b.y) >= 0) by (nonlinear_arith);
    let d2 = (a.x - b.x) * (a.x - b.x) + (a.y - b.y) * (a.y - b.y);
    if d2 != 0 {
        lemma_sqf_bounds(d2 as nat);
        let d = sqf(d2 as nat) as int;
        if d == 0 {
            assert((sqf(d2 as nat) + 1) * (sqf(d2 as nat) + 1) == 1) by (nonlinear_arith)
                requires
                    sqf(d2 as nat) == 0,
            ;
            assert(false);
        }
        assert((d * d) * d >= 1) by (nonlinear_arith)
            requires
                d >= 1,
        ;
        assert(500_000 * (b.area as int) * (a.area as int) * (b.x - a.x) == -(500_000 * (
        a.area as int) * (b.area as int) * (a.x - b.x))) by (nonlinear_arith);
        assert(500_000 * (b.area as int) * (a.area as int) * (b.y - a.y) == -(500_000 * (
        a.area as int) * (b.area as int) * (a.y - b.y))) by (nonlinear_arith);
        lemma_tdiv_neg(
            -(500_000 * (a.area as int) * (b.area as int) * (a.x - b.x)),
            (d * d) * d,
        );
        lemma_tdiv_neg(
            -(500_000 * (a.area as int) * (b.area as int) * (a.y - b.y)),
            (d * d) * d,
        );
    }
}

/// With exactly two bodies of equal area at rest, one step kicks them with
/// exactly opposite velocities: the symmetry of mutual attraction.
pub proof fn law_two_body_mutual_kick(s: Seq<Body>)
    requires
        s.len() == 2,
        all_wf(s),
        s[0].area == s[1].area,
        s[0].vx == 0,
        s[0].vy == 0,
        s[1].vx == 0,
        s[1].vy == 0,
    ensures
        stepped_body(s, 0).vx == -stepped_body(s, 1).vx,
        stepped_body(s, 0).vy == -stepped_body(s, 1).vy,
{
    assert(force_x_upto(s, 0, 0) == 0);
    assert(force_x_upto(s, 0, 1) == 0);
    assert(force_x_upto(s, 0, 2) == pair_force_x(s[0], s[1]));
    assert(force_y_upto(s, 0, 0) == 0);
    assert(force_y_upto(s, 0, 1) == 0);
    assert(force_y_upto(s, 0, 2) == pair_force_y(s[0], s[1]));
    assert(force_x_upto(s, 1, 0) == 0);
    assert(force_x_upto(s, 1, 1) == pair_force_x(s[1], s[0]));
    assert(force_x_upto(s, 1, 2) == pair_force_x(s[1], s[0]));
    assert(force_y_upto(s, 1, 0) == 0);
    assert(force_y_upto(s, 1, 1) == pair_force_y(s[1], s[0]));
    assert(force_y_upto(s, 1, 2) == pair_force_y(s[1], s[0]));
    assert(force_x(s, 0) == pair_force_x(s[0], s[1]));
    assert(force_y(s, 0) == pair_force_y(s[0], s[1]));
    assert(force_x(s, 1) == pair_force_x(s[1], s[0]));
    assert(force_y(s, 1) == pair_force_y(s[1], s[0]));
    law_mutual_force_opposite(s[0], s[1]);
    let a = s[0].area as int;
    let fx = force_x(s, 0);
    let fy = force_y(s, 0);
    assert((-fx) * (TIME_NUM as int) == -(fx * (TIME_NUM as int)));
    assert((-fy) * (TIME_NUM as int) == -(fy * (TIME_NUM as int)));
    lemma_tdiv_neg(fx * (TIME_NUM as int), a);
    lemma_tdiv_neg(fy * (TIME_NUM as int), a);
    lemma_tdiv_bound(fx * (TIME_NUM as int), a);
    lemma_tdiv_bound(fy * (TIME_NUM as int), a);
    lemma_clamp_neg(tdiv(fx * (TIME_NUM as int), a), MAX_VEL as int);
    lemma_clamp_neg(tdiv(fy * (TIME_NUM as int), a), MAX_VEL as int);
}

/// Both force components that body `b` exerts on body `a`, in one pass.
fn pair_force(a: Body, b: Body) -> (f: (i128, i128))
    requires
        body_wf(a),
        body_wf(b),
    ensures
        f.0 == pair_force_x(a, b),
        f.1 == pair_force_y(a, b),
{
    let dx: i64 = a.x - b.x;
    let dy: i64 = a.y - b.y;
    proof {
        assert(0 <= dx * dx <= 4_000_000_000_000_000_000) by (nonlinear_arith)
            requires
                -2_000_000_000 <= dx <= 2_000_000_000,
        ;
        assert(0 <= dy * dy <= 4_000_000_000_000_000_000) by (nonlinear_arith)
            requires
                -2_000_000_000 <= dy <= 2_000_000_000,
        ;
    }
    let d2: i128 = (dx as i128) * (dx as i128) + (dy as i128) * (dy as i128);
    if d2 == 0 {
        (0, 0)
    } else {
        proof {
            lemma_sqf_bounds(d2 as nat);
            if sqf(d2 as nat) > 2_999_999_999 {
                assert(3_000_000_000 * 3_000_000_000 <= sqf(d2 as nat) * sqf(d2 as nat))
                    by (nonlinear_arith)
                    requires
                        3_000_000_000 <= sqf(d2 as nat),
                ;
                assert(false);
            }
            if sqf(d2 as nat) == 0 {
                assert((sqf(d2 as nat) + 1) * (sqf(d2 as nat) + 1) == 1) by (nonlinear_arith)
                    requires
                        sqf(d2 as nat) == 0,
                ;
                assert(false);
            }
        }
        let d: u64 = isqrt_u64(d2 as u64);
        let di: i128 = d as i128;
        proof {
            assert(1 <= (di * di) * di <= 27_000_000_000_000_000_000_000_000_000)
                by (nonlinear_arith)
                requires
                    1 <= di <= 3_000_000_000,
            ;
        }
        let d3: i128 = (di * di) * di;
        proof {
            assert(-PAIR_FORCE_MAX <= 500_000 * (a.area as int) * (b.area as int) * (dx as int)
                <= PAIR_FORCE_MAX) by (nonlinear_arith)
                requires
                    0 < a.area <= 100_000_000,
                    0 < b.area <= 100_000_000,
                    -2_000_000_000 <= dx <= 2_000_000_000,
            ;
            assert(-PAIR_FORCE_MAX <= 500_000 * (a.area as int) * (b.area as int) * (dy as int)
                <= PAIR_FORCE_MAX) by (nonlinear_arith)
                requires
                    0 < a.area <= 100_000_000,
                    0 < b.area <= 100_000_000,
                    -2_000_000_000 <= dy <= 2_000_000_000,
            ;
            assert(0 <= 500_000 * (a.area as int) * (b.area as int) <= PAIR_FORCE_MAX)
                by (nonlinear_arith)
                requires
                    0 < a.area <= 100_000_000,
                    0 < b.area <= 100_000_000,
            ;
        }
        let numx: i128 = 500_000 * (a.area as i128) * (b.area as i128) * (dx as i128);
        let numy: i128 = 500_000 * (a.area as i128) * (b.area as i128) * (dy as i128);
        (tdiv_i128(-numx, d3), tdiv_i128(-numy, d3))
    }
}

/// Advances every body by one time step, reading all forces from a snapshot
/// taken before any body moves, so that the step is simultaneous. Areas,
/// colors and the body count never change; only positions and velocities do.
pub fn calc_physx(state: &mut Vec<Body>)
    requires
        all_wf(old(state)@),
        old(state)@.len() <= MAX_BODIES,
    ensures
        final(state)@.len() == old(state)@.len(),
        all_wf(final(state)@),
        forall|i: int|
            0 <= i < old(state)@.len() ==> final(state)@[i] == stepped_body(old(state)@, i),
{
    let n = state.len();
    let ghost snap = state@;
    let mut out: Vec<Body> = Vec::new();
    let mut i: usize = 0;
    while i < n
        invariant
            i <= n,
            n == snap.len(),
            n <= MAX_BODIES,
            state@ == snap,
            all_wf(snap),
            out@.len() == i,
            forall|k: int| 0 <= k < i ==> out@[k] == stepped_body(snap, k),
            forall|k: int| 0 <= k < i ==> body_wf(#[trigger] out@[k]),
        decreases n - i,
    {
        let b = state[i];
        let mut fx: i128 = 0;
        let mut fy: i128 = 0;
        let mut j: usize = 0;
        while j < n
            invariant
                j <= n,
                i < n,
                n == snap.len(),
                n <= MAX_BODIES,
                state@ == snap,
                all_wf(snap),
                b == snap[i as int],
                fx == force_x_upto(snap, i as int, j as int),
                fy == force_y_upto(snap, i as int, j as int),
                -(j as int) * PAIR_FORCE_MAX <= fx <= (j as int) * PAIR_FORCE_MAX,
                -(j as int) * PAIR_FORCE_MAX <= fy <= (j as int) * PAIR_FORCE_MAX,
            decreases n - j,
        {
            if j != i {
                let other = state[j];
                proof {
                    lemma_pair_force_bound(b, other);
                }
                let (px, py) = pair_force(b, other);
                fx = fx + px;
                fy = fy + py;
            }
            proof {
                assert(force_x_upto(snap, i as int, j + 1) == force_x_upto(snap, i as int, j as int)
                    + if j as int == i as int {
                    0int
                } else {
                    pair_force_x(snap[i as int], snap[j as int])
                });
                assert(force_y_upto(snap, i as int, j + 1) == force_y_upto(snap, i as int, j as int)
                    + if j as int == i as int {
                    0int
                } else {
                    pair_force_y(snap[i as int], snap[j as int])
                });
            }
            j = j + 1;
        }
        proof {
            assert(fx == force_x(snap, i as int));
            assert(fy == force_y(snap, i as int));
            lemma_tdiv_bound(fx * 35, b.area as int);
            lemma_tdiv_bound(fy * 35, b.area as int);
        }
        let area128: i128 = b.area as i128;
        let dvx = tdiv_i128(fx * 35, area128);
        let dvy = tdiv_i128(fy * 35, area128);
        let nvx = clamp_i128((b.vx as i128) + dvx, -MAX_VEL, MAX_VEL);
        let nvy = clamp_i128((b.vy as i128) + dvy, -MAX_VEL, MAX_VEL);
        proof {
            lemma_tdiv_bound((nvx as int) * 35, TIME_DEN as int);
        }
        let dpx = tdiv_i128((nvx as i128) * 35, 1000);
        let dpy = tdiv_i128((nvy as i128) * 35, 1000);
        let nx = clamp_i128((b.x as i128) + dpx, -MAX_COORD, MAX_COORD);
        let ny = clamp_i128((b.y as i128) + dpy, -MAX_COORD, MAX_COORD);
        let nb = Body { x: nx, y: ny, vx: nvx, vy: nvy, area: b.area, color: b.color };
        proof {
            assert(nb == stepped_body(snap, i as int));
        }
        out.push(nb);
        i = i + 1;
    }
    *state = out;
}

/// One physics step moves a body but never changes its area or its color:
/// only position and velocity are touched.
pub proof fn law_step_keeps_area_and_color(s: Seq<Body>, i: int)
    requires
        0 <= i < s.len(),
    ensures
        stepped_body(s, i).area == s[i].area,
        stepped_body(s, i).color == s[i].color,
{
}

} // verus!
