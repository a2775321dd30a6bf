use gravity_sim::body::{Body, Color};
use gravity_sim::sim::{
    draw, reset, sim_frame, update_radius, DrawCmd, FrameInput, DEFAULT_BRUSH, MAX_BRUSH,
    MIN_BRUSH,
};

fn quiet_input() -> FrameInput {
    FrameInput {
        mouse_x: 0,
        mouse_y: 0,
        edit_mode: false,
        clicking: false,
        wheel: 0,
        reset_key: false,
    }
}

fn body_at(x: i64, y: i64, area: i64) -> Body {
    Body {
        x,
        y,
        vx: 0,
        vy: 0,
        area,
        color: Color { r: 255, g: 255, b: 255, a: 255 },
    }
}

#[test]
fn wheel_down_clamps_at_minimum() {
    let mut radius: i64 = 5_500;
    update_radius(&mut radius, -1);
    assert_eq!(radius, MIN_BRUSH);
    update_radius(&mut radius, -1);
    assert_eq!(radius, MIN_BRUSH);
}

#[test]
fn wheel_up_grows_by_one_unit() {
    let mut radius: i64 = DEFAULT_BRUSH;
    update_radius(&mut radius, 1);
    assert_eq!(radius, DEFAULT_BRUSH + 1_000);
}

#[test]
fn wheel_up_clamps_at_maximum() {
    let mut radius: i64 = MAX_BRUSH;
    update_radius(&mut radius, 1);
    assert_eq!(radius, MAX_BRUSH);
}

#[test]
fn wheel_still_leaves_radius_alone() {
    let mut radius: i64 = DEFAULT_BRUSH;
    update_radius(&mut radius, 0);
    assert_eq!(radius, DEFAULT_BRUSH);
}

#[test]
fn reset_empties_world_and_selection() {
    let mut state = vec![body_at(0, 0, 10_000), body_at(9_000, 0, 10_000)];
    let mut selected: Option<usize> = Some(1);
    reset(&mut state, &mut selected);
    assert!(state.is_empty());
    assert_eq!(selected, None);
}

#[test]
fn reset_key_clears_during_frame() {
    let mut state = vec![
        body_at(0, 0, 10_000),
        body_at(100_000, 0, 10_000),
        body_at(200_000, 0, 10_000),
    ];
    let mut selected: Option<usize> = Some(2);
    let mut radius: i64 = DEFAULT_BRUSH;
    let mut input = quiet_input();
    input.reset_key = true;
    let cmds = sim_frame(&mut state, &mut selected, &mut radius, false, input);
    assert!(state.is_empty());
    assert_eq!(selected, None);
    assert!(cmds.is_empty());
}

#[test]
fn draw_emits_one_circle_per_body() {
    let state = vec![body_at(0, 0, 10_000), body_at(50_000, 1_000, 20_000)];
    let cmds = draw(&state, Some(0));
    assert_eq!(cmds.len(), 2);
    assert_eq!(
        cmds[0],
        DrawCmd::Circle {
            x: 0,
            y: 0,
            radius: 1784,
            color: Color { r: 255, g: 0, b: 0, a: 255 },
        }
    );
    assert_eq!(
        cmds[1],
        DrawCmd::Circle {
            x: 50_000,
            y: 1_000,
            radius: 2523,
            color: Color { r: 255, g: 255, b: 255, a: 255 },
        }
    );
}

#[test]
fn edit_click_on_empty_ground_spawns_selected_body() {
    let mut state: Vec<Body> = Vec::new();
    let mut selected: Option<usize> = None;
    let mut radius: i64 = DEFAULT_BRUSH;
    let mut input = quiet_input();
    input.edit_mode = true;
    input.clicking = true;
    input.mouse_x = 40_000;
    input.mouse_y = 30_000;
    let cmds = sim_frame(&mut state, &mut selected, &mut radius, false, input);
    assert_eq!(state.len(), 1);
    let b = state[0];
    assert_eq!(b.x, 40_000);
    assert_eq!(b.y, 30_000);
    assert_eq!(b.vx, 0);
    assert_eq!(b.vy, 0);
    // The area is ten times the brush radius.
    assert_eq!(b.area, DEFAULT_BRUSH * 10);
    assert_eq!(b.color, Color { r: 255, g: 255, b: 255, a: 255 });
    assert_eq!(selected, Some(0));
    // A preview circle, then the body's own circle.
    assert_eq!(cmds.len(), 2);
    assert_eq!(
        cmds[0],
        DrawCmd::Circle {
            x: 40_000,
            y: 30_000,
            radius: 5641,
            color: Color { r: 255, g: 255, b: 255, a: 128 },
        }
    );
}

#[test]
fn edit_hover_with_selection_draws_line() {
    let mut state = vec![body_at(500_000, 600_000, 10_000)];
    let mut selected: Option<usize> = Some(0);
    let mut radius: i64 = DEFAULT_BRUSH;
    let mut input = quiet_input();
    input.edit_mode = true;
    input.mouse_x = 0;
    input.mouse_y = 0;
    let cmds = sim_frame(&mut state, &mut selected, &mut radius, false, input);
    assert_eq!(state.len(), 1);
    assert_eq!(
        cmds[0],
        DrawCmd::Line {
            x1: 0,
            y1: 0,
            x2: 500_000,
            y2: 600_000,
            width: 4_000,
            color: Color { r: 255, g: 0, b: 0, a: 255 },
        }
    );
}

#[test]
fn plain_click_selects_last_body_under_cursor() {
    // Two overlapping bodies under the cursor: the scan keeps the later one.
    let mut state = vec![body_at(0, 0, 10_000), body_at(500, 0, 10_000)];
    let mut selected: Option<usize> = None;
    let mut radius: i64 = DEFAULT_BRUSH;
    let mut input = quiet_input();
    input.clicking = true;
    let _ = sim_frame(&mut state, &mut selected, &mut radius, false, input);
    assert_eq!(selected, Some(1));
}

#[test]
fn plain_click_on_empty_ground_clears_selection() {
    let mut state = vec![body_at(500_000, 0, 10_000)];
    let mut selected: Option<usize> = Some(0);
    let mut radius: i64 = DEFAULT_BRUSH;
    let mut input = quiet_input();
    input.clicking = true;
    let _ = sim_frame(&mut state, &mut selected, &mut radius, false, input);
    assert_eq!(selected, None);
}

#[test]
fn playing_frame_steps_and_merges() {
    // Two overlapping equal bodies: while playing, the frame first steps
    // them, then the merge pass collapses them to one.
    let mut state = vec![body_at(0, 0, 10_000), body_at(3_000, 0, 10_000)];
    let mut selected: Option<usize> = None;
    let mut radius: i64 = DEFAULT_BRUSH;
    let cmds = sim_frame(&mut state, &mut selected, &mut radius, true, quiet_input());
    assert_eq!(state.len(), 1);
    assert_eq!(state[0].area, 20_000);
    assert_eq!(cmds.len(), 1);
}

#[test]
fn paused_frame_leaves_bodies_alone() {
    let mut state = vec![body_at(0, 0, 10_000), body_at(1_000, 0, 10_000)];
    let before = state.clone();
    let mut selected: Option<usize> = None;
    let mut radius: i64 = DEFAULT_BRUSH;
    let _ = sim_frame(&mut state, &mut selected, &mut radius, false, quiet_input());
    assert_eq!(state, before);
}
