//! The overlap scan and the merge pass that runs after each physics step.
//!
//! The scan walks the snapshot in order and keeps overwriting its candidate,
//! so it reports the last body in iteration order whose circle overlaps the
//! probe. The merge pass visits every snapshot index once: when the scan
//! finds a distinct overlapping partner and both bodies are still live, the
//! visited body absorbs the partner's area, blends the velocities, keeps the
//! position of whichever side had the larger area, and the partner dies.

use crate::body::{all_wf, body_wf, circle_of, circle_wf, Body, Circle, MAX_AREA, MAX_BODIES, MAX_VEL};
use crate::geom::{circles_overlap, circles_overlap_spec, lemma_self_overlap};
use crate::num::{clamp_i128, clamp_spec, lemma_tdiv_bound, tdiv, tdiv_i128};
use vstd::prelude::*;

verus! {

/// The last index below `n` whose body's circle overlaps the probe `c`.
pub open spec fn last_overlap_upto(c: Circle, s: Seq<Body>, n: int) -> Option<int>
    decreases n,
{
    if n <= 0 {
        None
    } else if circles_overlap_spec(c, circle_of(s[n - 1])) {
        Some(n - 1)
    } else {
        last_overlap_upto(c, s, n - 1)
    }
}

/// The last index in all of `s` whose body's circle overlaps the probe `c`.
pub open spec fn last_overlap(c: Circle, s: Seq<Body>) -> Option<int> {
    last_overlap_upto(c, s, s.len() as int)
}

/// A spec-level index option carried down to `usize`.
pub open spec fn as_usize_opt(o: Option<int>) -> Option<usize> {
    match o {
        Some(i) => Some(i as usize),
        None => None,
    }
}

/// Every index the scan can report lies below `n`.
pub proof fn lemma_last_overlap_upto_range(c: Circle, s: Seq<Body>, n: int)
    requires
        n <= s.len(),
    ensures
        match last_overlap_upto(c, s, n) {
            Some(i) => 0 <= i < n && circles_overlap_spec(c, circle_of(s[i])),
            None => true,
        },
    decreases n,
{
    if n > 0 {
        lemma_last_overlap_upto_range(c, s, n - 1);
    }
}

/// Scans all bodies and reports the last one whose circle overlaps the
/// probe, the tie-break a linear scan that keeps overwriting produces.
pub fn overlaps_at_all(node: Circle, state: &Vec<Body>) -> (r: Option<usize>)
    requires
        circle_wf(node),
        all_wf(state@),
    ensures
        r == as_usize_opt(last_overlap(node, state@)),
{
    let mut o: Option<usize> = None;
    let mut index: usize = 0;
    while index < state.len()
        invariant
            index <= state@.len(),
            circle_wf(node),
            all_wf(state@),
            o == as_usize_opt(last_overlap_upto(node, state@, index as int)),
        decreases state@.len() - index,
    {
        let other_node = state[index];
        if circles_overlap(node, Circle { x: other_node.x, y: other_node.y, area: other_node.area })
        {
            o = Some(index);
        }
        proof {
            assert(circle_of(state@[index as int]) == (Circle {
                x: other_node.x,
                y: other_node.y,
                area: other_node.area,
            }));
            assert(last_overlap_upto(node, state@, index + 1) == if circles_overlap_spec(
                node,
                circle_of(state@[index as int]),
            ) {
                Some(index as int)
            } else {
                last_overlap_upto(node, state@, index as int)
            });
        }
        index = index + 1;
    }
    o
}

/// The body that survives when `a` absorbs `b`: summed area saturating at
/// the world bound, the velocity blend `a.v / a.area + b.v / b.area` at the
/// fixed-point scale, the position of whichever side had the larger area
/// (ties keep the absorber's), and the absorber's color.
pub open spec fn merge_bodies(a: Body, b: Body) -> Body {
    let sum = a.area + b.area;
    let na = if sum > MAX_AREA { MAX_AREA as int } else { sum };
    let nvx = clamp_spec(
        tdiv((a.vx as int) * 1000, a.area as int) + tdiv((b.vx as int) * 1000, b.area as int),
        -(MAX_VEL as int),
        MAX_VEL as int,
    );
    let nvy = clamp_spec(
        tdiv((a.vy as int) * 1000, a.area as int) + tdiv((b.vy as int) * 1000, b.area as int),
        -(MAX_VEL as int),
        MAX_VEL as int,
    );
    Body {
        x: if a.area >= b.area { a.x } else { b.x },
        y: if a.area >= b.area { a.y } else { b.y },
        vx: nvx as i64,
        vy: nvy as i64,
        area: na as i64,
        color: a.color,
    }
}

/// Merges one body into another, exactly as `merge_bodies` describes.
pub fn merge_bodies_exec(a: Body, b: Body) -> (m: Body)
    requires
        body_wf(a),
        body_wf(b),
    ensures
        m == merge_bodies(a, b),
        body_wf(m),
{
    let sum: i64 = a.area + b.area;
    let na: i64 = if sum > MAX_AREA {
        MAX_AREA
    } else {
        sum
    };
    proof {
        lemma_tdiv_bound((a.vx as int) * 1000, a.area as int);
        lemma_tdiv_bound((b.vx as int) * 1000, b.area as int);
        lemma_tdiv_bound((a.vy as int) * 1000, a.area as int);
        lemma_tdiv_bound((b.vy as int) * 1000, b.area as int);
    }
    let qax = tdiv_i128((a.vx as i128) * 1000, a.area as i128);
    let qbx = tdiv_i128((b.vx as i128) * 1000, b.area as i128);
    let qay = tdiv_i128((a.vy as i128) * 1000, a.area as i128);
    let qby = tdiv_i128((b.vy as i128) * 1000, b.area as i128);
    let nvx = clamp_i128(qax + qbx, -MAX_VEL, MAX_VEL);
    let nvy = clamp_i128(qay + qby, -MAX_VEL, MAX_VEL);
    Body {
        x: if a.area >= b.area {
            a.x
        } else {
            b.x
        },
        y: if a.area >= b.area {
            a.y
        } else {
            b.y
        },
        vx: nvx,
        vy: nvy,
        area: na,
        color: a.color,
    }
}

/// The live cells at the start of a pass: every snapshot body, still alive.
pub open spec fn init_cells(s: Seq<Body>) -> Seq<Option<Body>> {
    Seq::new(s.len(), |i: int| Some(s[i]))
}

/// The cells that a body buffer and its liveness flags describe.
pub open spec fn cells_of(bodies: Seq<Body>, alive: Seq<bool>) -> Seq<Option<Body>>
    recommends
        bodies.len() == alive.len(),
{
    Seq::new(bodies.len(), |i: int| if alive[i] { Some(bodies[i]) } else { None })
}

/// A selection index carried up from `usize` to the spec level.
pub open spec fn sel_view(o: Option<usize>) -> Option<int> {
    match o {
        Some(u) => Some(u as int),
        None => None,
    }
}

/// One visit of the merge pass at snapshot index `i`: if the scan of the
/// snapshot names a distinct partner and both cells are still live, the
/// visited cell absorbs the partner, the partner's cell dies, and a
/// selection of the dead partner moves to the absorber.
pub open spec fn merge_step(
    snap: Seq<Body>,
    cells: Seq<Option<Body>>,
    sel: Option<int>,
    i: int,
) -> (Seq<Option<Body>>, Option<int>)
    recommends
        0 <= i < snap.len(),
        cells.len() == snap.len(),
{
    match last_overlap(circle_of(snap[i]), snap) {
        Some(oi) => {
            if oi != i {
                match (cells[i], cells[oi]) {
                    (Some(a), Some(b)) => (
                        cells.update(i, Some(merge_bodies(a, b))).update(oi, None),
                        if sel == Some(oi) {
                            Some(i)
                        } else {
                            sel
                        },
                    ),
                    _ => (cells, sel),
                }
            } else {
                (cells, sel)
            }
        },
        None => (cells, sel),
    }
}

/// The merge pass from snapshot index `i` on: every index visited once, in
/// order, each visit reading the unchanged snapshot but the current cells.
pub open spec fn merge_pass_from(
    snap: Seq<Body>,
    cells: Seq<Option<Body>>,
    sel: Option<int>,
    i: int,
) -> (Seq<Option<Body>>, Option<int>)
    decreases snap.len() - i,
{
    if i < 0 || i >= snap.len() {
        (cells, sel)
    } else {
        let r = merge_step(snap, cells, sel, i);
        merge_pass_from(snap, r.0, r.1, i + 1)
    }
}

/// One whole merge pass over a snapshot, with the selection it carries.
pub open spec fn merge_pass(snap: Seq<Body>, sel: Option<int>) -> (Seq<Option<Body>>, Option<int>) {
    merge_pass_from(snap, init_cells(snap), sel, 0)
}

/// The live bodies of the cells, in order.
pub open spec fn compact(cells: Seq<Option<Body>>) -> Seq<Body>
    decreases cells.len(),
{
    if cells.len() == 0 {
        Seq::empty()
    } else {
        compact(cells.drop_last()) + match cells.last() {
            Some(b) => seq![b],
            None => Seq::empty(),
        }
    }
}

/// How many cells are live.
pub open spec fn count_alive(cells: Seq<Option<Body>>) -> int
    decreases cells.len(),
{
    if cells.len() == 0 {
        0
    } else {
        count_alive(cells.drop_last()) + if cells.last() is Some {
            1int
        } else {
            0int
        }
    }
}

/// Where a selected snapshot index lands after compaction: its position
/// among the live cells, or no selection if its cell died.
pub open spec fn remap_selection(cells: Seq<Option<Body>>, sel: Option<int>) -> Option<usize> {
    match sel {
        Some(si) => if 0 <= si < cells.len() && cells[si] is Some {
            Some(count_alive(cells.take(si)) as usize)
        } else {
            None
        },
        None => None,
    }
}

/// Peeling one cell off the front of a prefix extends its compaction and its
/// live count by exactly that cell.
pub proof fn lemma_compact_snoc(cells: Seq<Option<Body>>, i: int)
    requires
        0 <= i < cells.len(),
    ensures
        compact(cells.take(i + 1)) == compact(cells.take(i)) + (match cells[i] {
            Some(b) => seq![b],
            None => Seq::<Body>::empty(),
        }),
        count_alive(cells.take(i + 1)) == count_alive(cells.take(i)) + if cells[i] is Some {
            1int
        } else {
            0int
        },
{
    assert(cells.take(i + 1).drop_last() =~= cells.take(i));
    assert(cells.take(i + 1).last() == cells[i]);
}

/// The live count of a prefix never exceeds its length.
pub proof fn lemma_count_alive_le_len(cells: Seq<Option<Body>>)
    ensures
        0 <= count_alive(cells) <= cells.len(),
    decreases cells.len(),
{
    if cells.len() > 0 {
        lemma_count_alive_le_len(cells.drop_last());
    }
}

/// Compaction keeps exactly the live cells.
pub proof fn lemma_compact_len(cells: Seq<Option<Body>>)
    ensures
        compact(cells).len() == count_alive(cells),
    decreases cells.len(),
{
    if cells.len() > 0 {
        lemma_compact_len(cells.drop_last());
    }
}

/// The live count of a prefix grows with the prefix.
pub proof fn lemma_count_alive_mono(cells: Seq<Option<Body>>, i: int, j: int)
    requires
        0 <= i <= j <= cells.len(),
    ensures
        count_alive(cells.take(i)) <= count_alive(cells.take(j)),
    decreases j - i,
{
    if i < j {
        lemma_compact_snoc(cells, j - 1);
        lemma_count_alive_mono(cells, i, j - 1);
    }
}

/// Replaces one element of a vector.
fn vec_update<T>(v: &mut Vec<T>, i: usize, t: T)
    requires
        i < old(v)@.len(),
    ensures
        final(v)@ == old(v)@.update(i as int, t),
{
    let ghost before = v@;
    v.remove(i);
    v.insert(i, t);
    proof {
        assert(v@ =~= before.update(i as int, t));
    }
}

/// A copy of the body list, for the snapshot each pass reads.
fn snapshot(state: &Vec<Body>) -> (s: Vec<Body>)
    ensures
        s@ == state@,
{
    let mut s: Vec<Body> = Vec::new();
    let mut i: usize = 0;
    while i < state.len()
        invariant
            i <= state@.len(),
            s@ == state@.take(i as int),
        decreases state@.len() - i,
    {
        let b = state[i];
        s.push(b);
        proof {
            assert(state@.take(i + 1) =~= state@.take(i as int).push(state@[i as int]));
        }
        i = i + 1;
    }
    proof {
        assert(state@.take(state@.len() as int) =~= state@);
    }
    s
}

/// Runs one merge pass: scans a snapshot of the bodies taken before any
/// merge, lets each body absorb the last body in iteration order whose
/// circle overlaps its own, removes every absorbed body, and moves a
/// selection of an absorbed body to its absorber. A selection whose body
/// died without an absorber is cleared; a surviving selection is renumbered
/// to the surviving list.
pub fn calc_overlaps(state: &mut Vec<Body>, currently_selected: &mut Option<usize>)
    requires
        all_wf(old(state)@),
        old(state)@.len() <= MAX_BODIES,
        match *old(currently_selected) {
            Some(si) => si < old(state)@.len(),
            None => true,
        },
    ensures
        final(state)@ == compact(
            merge_pass(old(state)@, sel_view(*old(currently_selected))).0,
        ),
        *final(currently_selected) == remap_selection(
            merge_pass(old(state)@, sel_view(*old(currently_selected))).0,
            merge_pass(old(state)@, sel_view(*old(currently_selected))).1,
        ),
        all_wf(final(state)@),
        final(state)@.len() <= old(state)@.len(),
        match *final(currently_selected) {
            Some(si) => si < final(state)@.len(),
            None => true,
        },
{
    let ghost snap = state@;
    let ghost sel0 = sel_view(*currently_selected);
    let ghost full = merge_pass(snap, sel0);
    let n = state.len();
    let state_clone = snapshot(state);
    let mut alive: Vec<bool> = Vec::new();
    let mut k: usize = 0;
    while k < n
        invariant
            k <= n,
            alive@.len() == k,
            forall|j: int| 0 <= j < k ==> alive@[j] == true,
        decreases n - k,
    {
        alive.push(true);
        k = k + 1;
    }
    proof {
        assert(cells_of(state@, alive@) =~= init_cells(snap));
    }
    let mut index: usize = 0;
    while index < n
        invariant
            index <= n,
            n == snap.len(),
            n <= MAX_BODIES,
            state@.len() == n,
            alive@.len() == n,
            state_clone@ == snap,
            all_wf(snap),
            all_wf(state@),
            match *currently_selected {
                Some(si) => si < n,
                None => true,
            },
            merge_pass_from(
                snap,
                cells_of(state@, alive@),
                sel_view(*currently_selected),
                index as int,
            ) == full,
        decreases n - index,
    {
        let ghost cells_before = cells_of(state@, alive@);
        let ghost sel_before = sel_view(*currently_selected);
        let node = state_clone[index];
        let probe = Circle { x: node.x, y: node.y, area: node.area };
        proof {
            assert(probe == circle_of(snap[index as int]));
        }
        let o = overlaps_at_all(probe, &state_clone);
        proof {
            lemma_last_overlap_upto_range(probe, snap, n as int);
        }
        match o {
            Some(overlap_index) => {
                if overlap_index != index {
                    let live_i = alive[index];
                    let live_o = alive[overlap_index];
                    if live_i && live_o {
                        let a = state[index];
                        let b = state[overlap_index];
                        let m = merge_bodies_exec(a, b);
                        vec_update(state, index, m);
                        vec_update(&mut alive, overlap_index, false);
                        match *currently_selected {
                            Some(cs) => {
                                if cs == overlap_index {
                                    *currently_selected = Some(index);
                                }
                            },
                            None => {},
                        }
                        proof {
                            assert(cells_before[index as int] == Some(a));
                            assert(cells_before[overlap_index as int] == Some(b));
                            assert(cells_of(state@, alive@) =~= cells_before.update(
                                index as int,
                                Some(merge_bodies(a, b)),
                            ).update(overlap_index as int, None));
                            assert(merge_step(snap, cells_before, sel_before, index as int) == (
                            cells_of(state@, alive@),
                            sel_view(*currently_selected),
                            ));
                        }
                    } else {
                        proof {
                            assert(merge_step(snap, cells_before, sel_before, index as int) == (
                            cells_before,
                            sel_before,
                            ));
                        }
                    }
                } else {
                    proof {
                        assert(merge_step(snap, cells_before, sel_before, index as int) == (
                        cells_before,
                        sel_before,
                        ));
                    }
                }
            },
            None => {
                proof {
                    assert(merge_step(snap, cells_before, sel_before, index as int) == (
                    cells_before,
                    sel_before,
                    ));
                }
            },
        }
        proof {
            assert(merge_pass_from(snap, cells_before, sel_before, index as int)
                == merge_pass_from(
                snap,
                cells_of(state@, alive@),
                sel_view(*currently_selected),
                index + 1,
            ));
        }
        index = index + 1;
    }
    let ghost gcells = cells_of(state@, alive@);
    let ghost gsel = sel_view(*currently_selected);
    proof {
        assert(merge_pass_from(snap, gcells, gsel, n as int) == (gcells, gsel));
        assert(gcells == full.0);
        assert(gsel == full.1);
    }
    let mut out: Vec<Body> = Vec::new();
    let mut k2: usize = 0;
    while k2 < n
        invariant
            k2 <= n,
            n == snap.len(),
            state@.len() == n,
            alive@.len() == n,
            all_wf(state@),
            gcells == cells_of(state@, alive@),
            out@ == compact(gcells.take(k2 as int)),
            out@.len() <= k2,
            all_wf(out@),
        decreases n - k2,
    {
        proof {
            lemma_compact_snoc(gcells, k2 as int);
        }
        if alive[k2] {
            let b = state[k2];
            out.push(b);
            proof {
                assert(gcells[k2 as int] == Some(b));
                assert(out@ =~= compact(gcells.take(k2 as int)) + seq![b]);
            }
        } else {
            proof {
                assert(gcells[k2 as int] is None);
                assert(out@ =~= compact(gcells.take(k2 as int)) + Seq::<Body>::empty());
            }
        }
        k2 = k2 + 1;
    }
    proof {
        assert(gcells.take(n as int) =~= gcells);
    }
    let mut newsel: Option<usize> = None;
    let sel_now = *currently_selected;
    match sel_now {
        Some(si) => {
            if alive[si] {
                let mut count: usize = 0;
                let mut k3: usize = 0;
                while k3 < si
                    invariant
                        k3 <= si,
                        si < n,
                        n == snap.len(),
                        state@.len() == n,
                        alive@.len() == n,
                        gcells == cells_of(state@, alive@),
                        count == count_alive(gcells.take(k3 as int)),
                        count <= k3,
                    decreases si - k3,
                {
                    proof {
                        lemma_compact_snoc(gcells, k3 as int);
                    }
                    if alive[k3] {
                        count = count + 1;
                    }
                    k3 = k3 + 1;
                }
                newsel = Some(count);
                proof {
                    assert(gcells[si as int] is Some);
                    assert(newsel == remap_selection(gcells, gsel));
                    lemma_compact_snoc(gcells, si as int);
                    lemma_count_alive_mono(gcells, si + 1, n as int);
                    assert(gcells.take(n as int) =~= gcells);
                    lemma_compact_len(gcells);
                    assert(count < out@.len());
                }
            } else {
                proof {
                    assert(gcells[si as int] is None);
                    assert(newsel == remap_selection(gcells, gsel));
                }
            }
        },
        None => {
            proof {
                assert(newsel == remap_selection(gcells, gsel));
            }
        },
    }
    *currently_selected = newsel;
    *state = out;
}

/// Merging two overlapping bodies where the first has the larger area leaves
/// one surviving body: its area is the exact sum, its position the larger
/// body's, its velocity the blend of each side's velocity over that side's
/// own area, its color the absorber's. The bounds in the premises keep the
/// sum and the blend inside the world limits, so nothing saturates.
pub proof fn law_merge_absorbs(s: Seq<Body>)
    requires
        s.len() == 2,
        all_wf(s),
        s[0].area > s[1].area,
        circles_overlap_spec(circle_of(s[0]), circle_of(s[1])),
        s[0].area + s[1].area <= MAX_AREA,
        -MAX_VEL <= tdiv((s[0].vx as int) * 1000, s[0].area as int) + tdiv(
            (s[1].vx as int) * 1000,
            s[1].area as int,
        ) <= MAX_VEL,
        -MAX_VEL <= tdiv((s[0].vy as int) * 1000, s[0].area as int) + tdiv(
            (s[1].vy as int) * 1000,
            s[1].area as int,
        ) <= MAX_VEL,
    ensures
        compact(merge_pass(s, None).0).len() == 1,
        compact(merge_pass(s, None).0)[0].area == s[0].area + s[1].area,
        compact(merge_pass(s, None).0)[0].x == s[0].x,
        compact(merge_pass(s, None).0)[0].y == s[0].y,
        compact(merge_pass(s, None).0)[0].vx == tdiv((s[0].vx as int) * 1000, s[0].area as int)
            + tdiv((s[1].vx as int) * 1000, s[1].area as int),
        compact(merge_pass(s, None).0)[0].vy == tdiv((s[0].vy as int) * 1000, s[0].area as int)
            + tdiv((s[1].vy as int) * 1000, s[1].area as int),
        compact(merge_pass(s, None).0)[0].color == s[0].color,
{
    let c0 = circle_of(s[0]);
    let c1 = circle_of(s[1]);
    // The scan for body 0 reports body 1, the later overlapping index.
    assert(last_overlap_upto(c0, s, 2) == Some(1int));
    // The scan for body 1 reports body 1 itself: a circle overlaps itself.
    lemma_self_overlap(c1);
    assert(last_overlap_upto(c1, s, 2) == Some(1int));
    let init = init_cells(s);
    assert(init[0] == Some(s[0]));
    assert(init[1] == Some(s[1]));
    let m = merge_bodies(s[0], s[1]);
    let cells1 = init.update(0, Some(m)).update(1, None);
    assert(merge_step(s, init, None, 0) == (cells1, Option::<int>::None));
    assert(merge_step(s, cells1, None, 1) == (cells1, Option::<int>::None));
    assert(merge_pass_from(s, cells1, None, 2) == (cells1, Option::<int>::None));
    assert(merge_pass_from(s, cells1, None, 1) == (cells1, Option::<int>::None));
    assert(merge_pass_from(s, init, None, 0) == (cells1, Option::<int>::None));
    assert(merge_pass(s, None).0 == cells1);
    // Compact the two cells: only the merged body survives.
    assert(cells1.last() is None);
    assert(cells1.drop_last() =~= seq![Some(m)]);
    assert(seq![Option::<Body>::Some(m)].drop_last() =~= Seq::<Option<Body>>::empty());
    assert(seq![Option::<Body>::Some(m)].last() == Some(m));
    assert(compact(Seq::<Option<Body>>::empty()) =~= Seq::<Body>::empty());
    assert(compact(seq![Option::<Body>::Some(m)]) =~= seq![m]);
    assert(compact(cells1) =~= seq![m]);
    // The merged fields: nothing saturates under the premises.
    assert(m.area == s[0].area + s[1].area);
    assert(m.x == s[0].x && m.y == s[0].y);
    assert(m.color == s[0].color);
}

/// If no two distinct bodies overlap, a merge pass changes nothing: the scan
/// of each body finds only the body itself.
pub proof fn lemma_scan_finds_self(s: Seq<Body>, i: int, n: int)
    requires
        all_wf(s),
        0 <= i < s.len(),
        0 <= n <= s.len(),
        forall|j: int|
            0 <= j < s.len() && j != i ==> !circles_overlap_spec(
                circle_of(s[i]),
                #[trigger] circle_of(s[j]),
            ),
    ensures
        last_overlap_upto(circle_of(s[i]), s, n) == if n > i {
            Some(i)
        } else {
            Option::<int>::None
        },
    decreases n,
{
    if n > 0 {
        lemma_scan_finds_self(s, i, n - 1);
        if n - 1 == i {
            lemma_self_overlap(circle_of(s[i]));
        }
    }
}

/// A merge pass over bodies of which no two distinct ones overlap leaves
/// every cell live and untouched.
pub proof fn lemma_no_overlap_pass_identity(s: Seq<Body>, sel: Option<int>, i: int)
    requires
        all_wf(s),
        0 <= i <= s.len(),
        forall|j: int, k: int|
            0 <= j < s.len() && 0 <= k < s.len() && j != k ==> !circles_overlap_spec(
                #[trigger] circle_of(s[j]),
                #[trigger] circle_of(s[k]),
            ),
    ensures
        merge_pass_from(s, init_cells(s), sel, i) == (init_cells(s), sel),
    decreases s.len() - i,
{
    if i < s.len() {
        lemma_scan_finds_self(s, i, s.len() as int);
        assert(last_overlap(circle_of(s[i]), s) == Some(i));
        assert(merge_step(s, init_cells(s), sel, i) == (init_cells(s), sel));
        lemma_no_overlap_pass_identity(s, sel, i + 1);
    }
}

/// Compacting cells that are all live gives back exactly the bodies.
pub proof fn lemma_compact_init(s: Seq<Body>)
    ensures
        compact(init_cells(s)) == s,
    decreases s.len(),
{
    if s.len() == 0 {
        assert(compact(init_cells(s)) =~= s);
    } else {
        lemma_compact_init(s.drop_last());
        assert(init_cells(s).drop_last() =~= init_cells(s.drop_last()));
        assert(init_cells(s).last() == Some(s.last()));
        assert(compact(init_cells(s)) =~= s);
    }
}

/// Absent overlaps, one merge pass leaves the body list exactly as it was:
/// together with the step contract, a physics step over bodies whose
/// circles stay apart keeps the body count, every area and every color.
pub proof fn law_no_overlap_keeps_all(s: Seq<Body>, sel: Option<int>)
    requires
        all_wf(s),
        forall|j: int, k: int|
            0 <= j < s.len() && 0 <= k < s.len() && j != k ==> !circles_overlap_spec(
                #[trigger] circle_of(s[j]),
                #[trigger] circle_of(s[k]),
            ),
    ensures
        compact(merge_pass(s, sel).0) == s,
        merge_pass(s, sel).1 == sel,
{
    lemma_no_overlap_pass_identity(s, sel, 0);
    lemma_compact_init(s);
}

} // verus!
