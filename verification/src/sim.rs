//! The per-frame control logic around the kernel: the brush the scroll wheel
//! adjusts, the reset command, body placement and selection under the
//! cursor, and the draw requests each frame hands to the renderer.

use crate::body::{all_wf, Body, Circle, Color, MAX_BODIES, MAX_COORD};
use crate::geom::{rad_of, radius_from_area};
use crate::merge::{
    calc_overlaps, compact, last_overlap, lemma_last_overlap_upto_range, merge_pass,
    overlaps_at_all, remap_selection, sel_view,
};
use crate::num::{clamp_i64, clamp_spec};
use crate::physics::{calc_physx, stepped_body};
use vstd::prelude::*;

verus! {

/// Smallest brush radius the wheel can reach, in milliunits.
pub const MIN_BRUSH: i64 = 5_000;

/// Largest brush radius: ten times it is the largest admissible area.
pub const MAX_BRUSH: i64 = 10_000_000;

/// The brush radius a fresh session starts with, in milliunits.
pub const DEFAULT_BRUSH: i64 = 10_000;

/// Width of the selection line, in milliunits.
pub const LINE_WIDTH: i64 = 4_000;

/// One shape the renderer is asked to draw, in world milliunits.
#[derive(Clone, Copy, PartialEq, Eq, Structural, Debug)]
pub enum DrawCmd {
    Circle { x: i64, y: i64, radius: i64, color: Color },
    Line { x1: i64, y1: i64, x2: i64, y2: i64, width: i64, color: Color },
}

/// What the host loop read from the devices this frame.
#[derive(Clone, Copy, PartialEq, Eq, Structural, Debug)]
pub struct FrameInput {
    /// Cursor position, in milliunits; clamped into the world on entry.
    pub mouse_x: i64,
    pub mouse_y: i64,
    /// Whether the placement modifier is held.
    pub edit_mode: bool,
    /// Whether the primary button is down.
    pub clicking: bool,
    /// Sign of the scroll wheel movement.
    pub wheel: i64,
    /// Whether the reset key is down.
    pub reset_key: bool,
}

/// The brush radius after one wheel reading: down one unit but never below
/// the minimum, up one unit but never above the maximum.
pub open spec fn update_radius_spec(r: i64, wheel: i64) -> i64 {
    if wheel < 0 {
        if r - 1000 < MIN_BRUSH {
            MIN_BRUSH
        } else {
            (r - 1000) as i64
        }
    } else if wheel > 0 {
        if r + 1000 > MAX_BRUSH {
            MAX_BRUSH
        } else {
            (r + 1000) as i64
        }
    } else {
        r
    }
}

/// Applies one scroll-wheel reading to the brush radius.
pub fn update_radius(current_radius: &mut i64, wheel: i64)
    requires
        MIN_BRUSH <= *old(current_radius) <= MAX_BRUSH,
    ensures
        *final(current_radius) == update_radius_spec(*old(current_radius), wheel),
        MIN_BRUSH <= *final(current_radius) <= MAX_BRUSH,
{
    if wheel < 0 {
        *current_radius = *current_radius - 1000;
        if *current_radius < MIN_BRUSH {
            *current_radius = MIN_BRUSH;
        }
    } else if wheel > 0 {
        *current_radius = *current_radius + 1000;
        if *current_radius > MAX_BRUSH {
            *current_radius = MAX_BRUSH;
        }
    }
}

/// Empties the world: no bodies and no selection are left.
pub fn reset(state: &mut Vec<Body>, currently_selected: &mut Option<usize>)
    ensures
        final(state)@ == Seq::<Body>::empty(),
        *final(currently_selected) is None,
{
    *state = Vec::new();
    *currently_selected = None;
}

/// The draw request for body `i`: its circle, highlighted when selected.
pub open spec fn draw_cmd_spec(s: Seq<Body>, sel: Option<usize>, i: int) -> DrawCmd {
    let b = s[i];
    DrawCmd::Circle {
        x: b.x,
        y: b.y,
        radius: rad_of(b.area as int) as i64,
        color: if sel_view(sel) == Some(i) {
            Color { r: 255, g: 0, b: 0, a: 255 }
        } else {
            b.color
        },
    }
}

/// The draw requests for all bodies, in list order.
pub open spec fn body_cmds(s: Seq<Body>, sel: Option<usize>) -> Seq<DrawCmd> {
    Seq::new(s.len(), |i: int| draw_cmd_spec(s, sel, i))
}

/// Emits one filled-circle request per body, in order; the selected body is
/// drawn in the highlight color instead of its own.
pub fn draw(state: &Vec<Body>, currently_selected: Option<usize>) -> (cmds: Vec<DrawCmd>)
    requires
        all_wf(state@),
    ensures
        cmds@ == body_cmds(state@, currently_selected),
{
    let mut cmds: Vec<DrawCmd> = Vec::new();
    let mut index: usize = 0;
    while index < state.len()
        invariant
            index <= state@.len(),
            all_wf(state@),
            cmds@.len() == index,
            forall|k: int| 0 <= k < index ==> cmds@[k] == draw_cmd_spec(state@, currently_selected, k),
        decreases state@.len() - index,
    {
        let node = state[index];
        let r = radius_from_area(node.area);
        let selected = match currently_selected {
            Some(cs) => cs == index,
            None => false,
        };
        let color = if selected {
            Color { r: 255, g: 0, b: 0, a: 255 }
        } else {
            node.color
        };
        cmds.push(DrawCmd::Circle { x: node.x, y: node.y, radius: r, color });
        index = index + 1;
    }
    proof {
        assert(cmds@ =~= body_cmds(state@, currently_selected));
    }
    cmds
}

/// The probe circle of the placement mode: the cursor with the brush radius
/// standing in as the probe's area, as the control scheme has it.
pub open spec fn edit_probe(mx: i64, my: i64, brush: i64) -> Circle {
    Circle { x: mx, y: my, area: brush }
}

/// The probe of selection mode: a bare point under the cursor.
pub open spec fn select_probe(mx: i64, my: i64) -> Circle {
    Circle { x: mx, y: my, area: 0 }
}

/// The body a click places: at rest under the cursor, white, with an area
/// of ten times the brush radius.
pub open spec fn spawned_body(mx: i64, my: i64, brush: i64) -> Body {
    Body {
        x: mx,
        y: my,
        vx: 0,
        vy: 0,
        area: ((brush as int) * 10) as i64,
        color: Color { r: 255, g: 255, b: 255, a: 255 },
    }
}

/// The bodies after the pointer phase: only a click in placement mode over
/// empty ground, with nothing selected and room left, adds a body.
pub open spec fn pointer_bodies(
    s: Seq<Body>,
    sel: Option<usize>,
    brush: i64,
    mx: i64,
    my: i64,
    edit: bool,
    clicking: bool,
) -> Seq<Body> {
    if edit {
        match last_overlap(edit_probe(mx, my, brush), s) {
            Some(_) => s,
            None => if sel is Some {
                s
            } else if clicking && s.len() < MAX_BODIES {
                s.push(spawned_body(mx, my, brush))
            } else {
                s
            },
        }
    } else {
        s
    }
}

/// The selection after the pointer phase: a placement-mode click over a body
/// selects it, a spawned body is selected at once, and a plain click selects
/// the body under the cursor or clears the selection over empty ground.
pub open spec fn pointer_sel(
    s: Seq<Body>,
    sel: Option<usize>,
    brush: i64,
    mx: i64,
    my: i64,
    edit: bool,
    clicking: bool,
) -> Option<usize> {
    if edit {
        match last_overlap(edit_probe(mx, my, brush), s) {
            Some(i) => if clicking {
                Some(i as usize)
            } else {
                sel
            },
            None => if sel is Some {
                sel
            } else if clicking && s.len() < MAX_BODIES {
                Some(s.len() as usize)
            } else {
                sel
            },
        }
    } else if clicking {
        match last_overlap(select_probe(mx, my), s) {
            Some(i) => Some(i as usize),
            None => None,
        }
    } else {
        sel
    }
}

/// The overlay the pointer phase draws: in placement mode over empty
/// ground, a line from the cursor to the selected body, or else the
/// half-transparent preview of the body a click would place.
pub open spec fn pointer_cmds(
    s: Seq<Body>,
    sel: Option<usize>,
    brush: i64,
    mx: i64,
    my: i64,
    edit: bool,
) -> Seq<DrawCmd> {
    if edit {
        match last_overlap(edit_probe(mx, my, brush), s) {
            Some(_) => Seq::empty(),
            None => match sel {
                Some(cs) => seq![
                    DrawCmd::Line {
                        x1: mx,
                        y1: my,
                        x2: s[cs as int].x,
                        y2: s[cs as int].y,
                        width: LINE_WIDTH,
                        color: Color { r: 255, g: 0, b: 0, a: 255 },
                    },
                ],
                None => seq![
                    DrawCmd::Circle {
                        x: mx,
                        y: my,
                        radius: rad_of((brush as int) * 10) as i64,
                        color: Color { r: 255, g: 255, b: 255, a: 128 },
                    },
                ],
            },
        }
    } else {
        Seq::empty()
    }
}

/// Runs the pointer phase and returns its overlay: placement and selection
/// exactly as `pointer_bodies`, `pointer_sel` and `pointer_cmds` state.
pub fn handle_pointer(
    state: &mut Vec<Body>,
    currently_selected: &mut Option<usize>,
    current_radius: i64,
    mx: i64,
    my: i64,
    edit_mode: bool,
    clicking: bool,
) -> (cmds: Vec<DrawCmd>)
    requires
        all_wf(old(state)@),
        old(state)@.len() <= MAX_BODIES,
        match *old(currently_selected) {
            Some(si) => si < old(state)@.len(),
            None => true,
        },
        MIN_BRUSH <= current_radius <= MAX_BRUSH,
        -MAX_COORD <= mx <= MAX_COORD,
        -MAX_COORD <= my <= MAX_COORD,
    ensures
        final(state)@ == pointer_bodies(
            old(state)@,
            *old(currently_selected),
            current_radius,
            mx,
            my,
            edit_mode,
            clicking,
        ),
        *final(currently_selected) == pointer_sel(
            old(state)@,
            *old(currently_selected),
            current_radius,
            mx,
            my,
            edit_mode,
            clicking,
        ),
        cmds@ == pointer_cmds(
            old(state)@,
            *old(currently_selected),
            current_radius,
            mx,
            my,
            edit_mode,
        ),
        all_wf(final(state)@),
        final(state)@.len() <= MAX_BODIES,
        match *final(currently_selected) {
            Some(si) => si < final(state)@.len(),
            None => true,
        },
{
    let mut cmds: Vec<DrawCmd> = Vec::new();
    if edit_mode {
        let probe = Circle { x: mx, y: my, area: current_radius };
        let o = overlaps_at_all(probe, state);
        proof {
            lemma_last_overlap_upto_range(probe, state@, state@.len() as int);
        }
        match o {
            Some(index) => {
                if clicking {
                    *currently_selected = Some(index);
                }
            },
            None => {
                let sel_now = *currently_selected;
                match sel_now {
                    Some(cs) => {
                        let target = state[cs];
                        cmds.push(
                            DrawCmd::Line {
                                x1: mx,
                                y1: my,
                                x2: target.x,
                                y2: target.y,
                                width: LINE_WIDTH,
                                color: Color { r: 255, g: 0, b: 0, a: 255 },
                            },
                        );
                    },
                    None => {
                        let preview_radius = radius_from_area(current_radius * 10);
                        cmds.push(
                            DrawCmd::Circle {
                                x: mx,
                                y: my,
                                radius: preview_radius,
                                color: Color { r: 255, g: 255, b: 255, a: 128 },
                            },
                        );
                        if clicking && state.len() < MAX_BODIES {
                            let body = Body {
                                x: mx,
                                y: my,
                                vx: 0,
                                vy: 0,
                                area: current_radius * 10,
                                color: Color { r: 255, g: 255, b: 255, a: 255 },
                            };
                            state.push(body);
                            *currently_selected = Some(state.len() - 1);
                        }
                    },
                }
            },
        }
    } else if clicking {
        let probe = Circle { x: mx, y: my, area: 0 };
        let o = overlaps_at_all(probe, state);
        proof {
            lemma_last_overlap_upto_range(probe, state@, state@.len() as int);
        }
        match o {
            Some(index) => {
                *currently_selected = Some(index);
            },
            None => {
                *currently_selected = None;
            },
        }
    }
    cmds
}

/// Every body stepped once from the same pre-step snapshot.
pub open spec fn stepped_all(s: Seq<Body>) -> Seq<Body> {
    Seq::new(s.len(), |i: int| stepped_body(s, i))
}

/// One physics phase: all bodies advance simultaneously by one time step,
/// then one merge pass collapses overlapping pairs and carries the
/// selection across.
pub open spec fn physics_phase(s: Seq<Body>, sel: Option<usize>) -> (Seq<Body>, Option<usize>) {
    let sb = stepped_all(s);
    let mp = merge_pass(sb, sel_view(sel));
    (compact(mp.0), remap_selection(mp.0, mp.1))
}

/// Everything one frame does: the wheel moves the brush, the physics phase
/// runs while playing, the reset key empties the world, the pointer phase
/// places or selects, and the frame's draw requests are the pointer overlay
/// followed by one circle per body.
pub open spec fn frame_spec(
    bodies: Seq<Body>,
    sel: Option<usize>,
    brush: i64,
    playing: bool,
    input: FrameInput,
) -> (Seq<Body>, Option<usize>, i64, Seq<DrawCmd>) {
    let brush1 = update_radius_spec(brush, input.wheel);
    let mx = clamp_spec(input.mouse_x as int, -(MAX_COORD as int), MAX_COORD as int) as i64;
    let my = clamp_spec(input.mouse_y as int, -(MAX_COORD as int), MAX_COORD as int) as i64;
    let ph = if playing {
        physics_phase(bodies, sel)
    } else {
        (bodies, sel)
    };
    let bodies2 = if input.reset_key {
        Seq::<Body>::empty()
    } else {
        ph.0
    };
    let sel2 = if input.reset_key {
        Option::<usize>::None
    } else {
        ph.1
    };
    let bodies3 = pointer_bodies(bodies2, sel2, brush1, mx, my, input.edit_mode, input.clicking);
    let sel3 = pointer_sel(bodies2, sel2, brush1, mx, my, input.edit_mode, input.clicking);
    let cmds = pointer_cmds(bodies2, sel2, brush1, mx, my, input.edit_mode) + body_cmds(
        bodies3,
        sel3,
    );
    (bodies3, sel3, brush1, cmds)
}

/// Runs one frame over the world, exactly as `frame_spec` states, and
/// returns the frame's draw requests.
pub fn sim_frame(
    state: &mut Vec<Body>,
    currently_selected: &mut Option<usize>,
    current_radius: &mut i64,
    playing: bool,
    input: FrameInput,
) -> (cmds: Vec<DrawCmd>)
    requires
        all_wf(old(state)@),
        old(state)@.len() <= MAX_BODIES,
        match *old(currently_selected) {
            Some(si) => si < old(state)@.len(),
            None => true,
        },
        MIN_BRUSH <= *old(current_radius) <= MAX_BRUSH,
    ensures
        final(state)@ == frame_spec(
            old(state)@,
            *old(currently_selected),
            *old(current_radius),
            playing,
            input,
        ).0,
        *final(currently_selected) == frame_spec(
            old(state)@,
            *old(currently_selected),
            *old(current_radius),
            playing,
            input,
        ).1,
        *final(current_radius) == frame_spec(
            old(state)@,
            *old(currently_selected),
            *old(current_radius),
            playing,
            input,
        ).2,
        cmds@ == frame_spec(
            old(state)@,
            *old(currently_selected),
            *old(current_radius),
            playing,
            input,
        ).3,
        all_wf(final(state)@),
        final(state)@.len() <= MAX_BODIES,
        match *final(currently_selected) {
            Some(si) => si < final(state)@.len(),
            None => true,
        },
        MIN_BRUSH <= *final(current_radius) <= MAX_BRUSH,
{
    update_radius(current_radius, input.wheel);
    let mx = clamp_i64(input.mouse_x, -MAX_COORD, MAX_COORD);
    let my = clamp_i64(input.mouse_y, -MAX_COORD, MAX_COORD);
    if playing {
        let ghost pre = state@;
        calc_physx(state);
        proof {
            assert(state@ =~= stepped_all(pre));
        }
        calc_overlaps(state, currently_selected);
    }
    if input.reset_key {
        reset(state, currently_selected);
    }
    let mut cmds = handle_pointer(
        state,
        currently_selected,
        *current_radius,
        mx,
        my,
        input.edit_mode,
        input.clicking,
    );
    let mut body_draws = draw(state, *currently_selected);
    cmds.append(&mut body_draws);
    cmds
}

} // verus!
