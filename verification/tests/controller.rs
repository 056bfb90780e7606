//! Scenario tests for the camera controller: motion, look, cursor grab, and
//! their frame-level composition.

use ringsfield::grab_cursor;
use ringsfield::init_cursor_grab;
use ringsfield::player_look;
use ringsfield::player_move;
use ringsfield::setup_player;
use ringsfield::toggle_cursor_grab;
use ringsfield::CameraTransform;
use ringsfield::Controller;
use ringsfield::CursorGrabState;
use ringsfield::InputSnapshot;
use ringsfield::Key;
use ringsfield::KeyBinds;
use ringsfield::MouseDelta;
use ringsfield::MouseSettings;
use ringsfield::PlayerPlugin;
use ringsfield::WindowState;

fn captured_window() -> WindowState {
    WindowState {
        grab_mode: CursorGrabState::Captured,
        visible: false,
        width: 1920,
        height: 1080,
    }
}

fn level_controller() -> Controller {
    Controller {
        transform: CameraTransform {
            x: 0,
            y: 0,
            z: 0,
            yaw: 0,
            pitch: 0,
        },
    }
}

fn snapshot(held: Vec<Key>, just_pressed: Vec<Key>, motions: Vec<MouseDelta>) -> InputSnapshot {
    InputSnapshot {
        held,
        just_pressed,
        motions,
    }
}

#[test]
fn forward_moves_speed_times_delta_time() {
    // speed 12.0, delta time 0.1 s, forward held, no rotation: 1.2 units
    // along the current forward axis (negative z).
    let settings = MouseSettings::default();
    let binds = KeyBinds::default();
    let input = snapshot(vec![Key::KeyW], vec![], vec![]);
    let window = Some(captured_window());
    let mut ctrl = level_controller();
    player_move(&input, 100_000, &window, &settings, &binds, 0, 1_000_000, &mut ctrl);
    assert_eq!(ctrl.transform.x, 0);
    assert_eq!(ctrl.transform.y, 0);
    assert_eq!(ctrl.transform.z, -1_200_000);
    assert_eq!(ctrl.transform.yaw, 0);
    assert_eq!(ctrl.transform.pitch, 0);
}

#[test]
fn diagonal_is_normalized_not_summed() {
    // forward+left held: the step follows the unit-length diagonal, not the
    // unnormalized sum of the two axis steps.
    let settings = MouseSettings::default();
    let binds = KeyBinds::default();
    let input = snapshot(vec![Key::KeyW, Key::KeyA], vec![], vec![]);
    let window = Some(captured_window());
    let mut ctrl = level_controller();
    player_move(&input, 100_000, &window, &settings, &binds, 0, 1_000_000, &mut ctrl);
    assert_eq!(ctrl.transform.x, -848_528);
    assert_eq!(ctrl.transform.z, -848_528);
    assert_eq!(ctrl.transform.y, 0);
    // The unnormalized sum would have moved a full 1.2 units on each axis.
    assert_ne!(ctrl.transform.x, -1_200_000);
    // The step's length matches the single-axis step within rounding.
    let dx = ctrl.transform.x as i128;
    let dz = ctrl.transform.z as i128;
    let sq = dx * dx + dz * dz;
    let single = 1_200_000i128 * 1_200_000;
    assert!((sq - single).abs() < single / 10_000);
}

#[test]
fn opposing_keys_cancel() {
    let settings = MouseSettings::default();
    let binds = KeyBinds::default();
    let input = snapshot(vec![Key::KeyW, Key::KeyS], vec![], vec![]);
    let window = Some(captured_window());
    let mut ctrl = level_controller();
    player_move(&input, 100_000, &window, &settings, &binds, 0, 1_000_000, &mut ctrl);
    assert_eq!(ctrl.transform, level_controller().transform);
}

#[test]
fn vertical_movement_uses_world_up() {
    let settings = MouseSettings::default();
    let binds = KeyBinds::default();
    let input = snapshot(vec![Key::Space], vec![], vec![]);
    let window = Some(captured_window());
    let mut ctrl = level_controller();
    player_move(&input, 100_000, &window, &settings, &binds, 0, 1_000_000, &mut ctrl);
    assert_eq!(ctrl.transform.y, 1_200_000);
    assert_eq!(ctrl.transform.x, 0);
    assert_eq!(ctrl.transform.z, 0);
}

#[test]
fn movement_speed_is_level_regardless_of_pitch() {
    // With pitch at the clamp limit the local-z horizontal projection is
    // short (cos 1.5 of a unit), yet normalization restores full speed.
    let settings = MouseSettings::default();
    let binds = KeyBinds::default();
    let input = snapshot(vec![Key::KeyW], vec![], vec![]);
    let window = Some(captured_window());
    let mut ctrl = level_controller();
    ctrl.transform.pitch = 1_500_000;
    player_move(&input, 100_000, &window, &settings, &binds, 0, 70_737, &mut ctrl);
    assert_eq!(ctrl.transform.z, -1_200_000);
    assert_eq!(ctrl.transform.x, 0);
    assert_eq!(ctrl.transform.y, 0);
}

#[test]
fn movement_disabled_while_cursor_free() {
    let settings = MouseSettings::default();
    let binds = KeyBinds::default();
    let input = snapshot(vec![Key::KeyW, Key::Space], vec![], vec![]);
    let window = Some(WindowState {
        grab_mode: CursorGrabState::Free,
        visible: true,
        width: 1920,
        height: 1080,
    });
    let mut ctrl = level_controller();
    player_move(&input, 100_000, &window, &settings, &binds, 0, 1_000_000, &mut ctrl);
    assert_eq!(ctrl.transform, level_controller().transform);
}

#[test]
fn movement_skipped_without_window() {
    let settings = MouseSettings::default();
    let binds = KeyBinds::default();
    let input = snapshot(vec![Key::KeyW], vec![], vec![]);
    let mut ctrl = level_controller();
    player_move(&input, 100_000, &None, &settings, &binds, 0, 1_000_000, &mut ctrl);
    assert_eq!(ctrl.transform, level_controller().transform);
}

#[test]
fn yaw_follows_sensitivity_times_delta_times_window() {
    // yaw 0, pitch 0, delta (100, 0), sensitivity 0.00015, shorter window
    // dimension 1080: yaw drops by 0.00015 * 100 * 1080 degrees, about
    // 0.2827 radians; pitch is untouched.
    let settings = MouseSettings::default();
    let input = snapshot(vec![], vec![], vec![MouseDelta { dx: 100, dy: 0 }]);
    let window = Some(captured_window());
    let mut ctrl = level_controller();
    player_look(&settings, &window, &input, &mut ctrl);
    assert_eq!(ctrl.transform.yaw, -282_743);
    assert_eq!(ctrl.transform.pitch, 0);
    assert_eq!(ctrl.transform.x, 0);
    assert_eq!(ctrl.transform.z, 0);
}

#[test]
fn pitch_clamped_under_extreme_deltas() {
    let settings = MouseSettings::default();
    let window = Some(captured_window());
    let mut ctrl = level_controller();
    let input = snapshot(vec![], vec![], vec![MouseDelta { dx: 0, dy: i64::MAX }]);
    player_look(&settings, &window, &input, &mut ctrl);
    assert_eq!(ctrl.transform.pitch, -1_500_000);
    let input = snapshot(vec![], vec![], vec![MouseDelta { dx: 0, dy: -i64::MAX }]);
    player_look(&settings, &window, &input, &mut ctrl);
    assert_eq!(ctrl.transform.pitch, 1_500_000);
    // A whole adversarial sequence keeps the clamp after every event.
    let input = snapshot(
        vec![],
        vec![],
        vec![
            MouseDelta { dx: 5, dy: i64::MAX },
            MouseDelta { dx: -7, dy: -i64::MAX },
            MouseDelta { dx: 0, dy: 123_456_789 },
        ],
    );
    player_look(&settings, &window, &input, &mut ctrl);
    assert!(ctrl.transform.pitch >= -1_500_000);
    assert!(ctrl.transform.pitch <= 1_500_000);
}

#[test]
fn yaw_wraps_within_one_turn() {
    let settings = MouseSettings::default();
    let window = Some(captured_window());
    let mut ctrl = level_controller();
    ctrl.transform.yaw = 3_000_000;
    let input = snapshot(vec![], vec![], vec![MouseDelta { dx: -3000, dy: 0 }]);
    player_look(&settings, &window, &input, &mut ctrl);
    assert_eq!(ctrl.transform.yaw, -1_084_072);
}

#[test]
fn look_disabled_while_cursor_free() {
    let settings = MouseSettings::default();
    let input = snapshot(vec![], vec![], vec![MouseDelta { dx: 100, dy: 100 }]);
    let window = Some(WindowState {
        grab_mode: CursorGrabState::Free,
        visible: true,
        width: 1920,
        height: 1080,
    });
    let mut ctrl = level_controller();
    player_look(&settings, &window, &input, &mut ctrl);
    assert_eq!(ctrl.transform, level_controller().transform);
}

#[test]
fn toggle_frees_captured_cursor() {
    // Captured at frame start, toggle pressed once: free, visible,
    // unconfined at frame end.
    let binds = KeyBinds::default();
    let input = snapshot(vec![], vec![Key::Escape], vec![]);
    let mut window = Some(captured_window());
    grab_cursor(&input, &binds, &mut window);
    let w = window.unwrap();
    assert_eq!(w.grab_mode, CursorGrabState::Free);
    assert!(w.visible);
}

#[test]
fn toggle_twice_across_frames_round_trips() {
    let binds = KeyBinds::default();
    let input = snapshot(vec![], vec![Key::Escape], vec![]);
    let mut window = Some(captured_window());
    grab_cursor(&input, &binds, &mut window);
    grab_cursor(&input, &binds, &mut window);
    let w = window.unwrap();
    assert_eq!(w.grab_mode, CursorGrabState::Captured);
    assert!(!w.visible);
}

#[test]
fn double_edge_in_one_frame_toggles_once() {
    // A snapshot that lists the press edge twice still flips only once per
    // frame.
    let binds = KeyBinds::default();
    let input = snapshot(vec![], vec![Key::Escape, Key::Escape], vec![]);
    let mut window = Some(captured_window());
    grab_cursor(&input, &binds, &mut window);
    assert_eq!(window.unwrap().grab_mode, CursorGrabState::Free);
}

#[test]
fn holding_toggle_key_does_not_toggle() {
    // The key is held but its press edge fell in an earlier frame.
    let binds = KeyBinds::default();
    let input = snapshot(vec![Key::Escape], vec![], vec![]);
    let mut window = Some(captured_window());
    grab_cursor(&input, &binds, &mut window);
    assert_eq!(window.unwrap().grab_mode, CursorGrabState::Captured);
}

#[test]
fn toggle_cursor_grab_flips_both_ways() {
    let mut w = captured_window();
    toggle_cursor_grab(&mut w);
    assert_eq!(w.grab_mode, CursorGrabState::Free);
    assert!(w.visible);
    toggle_cursor_grab(&mut w);
    assert_eq!(w.grab_mode, CursorGrabState::Captured);
    assert!(!w.visible);
}

#[test]
fn init_captures_free_cursor() {
    let mut window = Some(WindowState {
        grab_mode: CursorGrabState::Free,
        visible: true,
        width: 800,
        height: 600,
    });
    init_cursor_grab(&mut window);
    let w = window.unwrap();
    assert_eq!(w.grab_mode, CursorGrabState::Captured);
    assert!(!w.visible);
}

#[test]
fn init_without_window_is_noop() {
    let mut window: Option<WindowState> = None;
    init_cursor_grab(&mut window);
    assert!(window.is_none());
}

#[test]
fn free_frame_leaves_camera_untouched() {
    // Whatever the frame's input holds, a frame that starts free moves
    // nothing.
    let plugin = PlayerPlugin::build();
    let input = snapshot(
        vec![Key::KeyW, Key::KeyA, Key::Space],
        vec![],
        vec![MouseDelta { dx: 55, dy: -44 }],
    );
    let mut window = Some(WindowState {
        grab_mode: CursorGrabState::Free,
        visible: true,
        width: 1920,
        height: 1080,
    });
    let mut ctrl = level_controller();
    plugin.update(&input, 100_000, 0, 1_000_000, &mut window, &mut ctrl);
    assert_eq!(ctrl.transform, level_controller().transform);
}

#[test]
fn toggle_takes_effect_next_frame() {
    // The frame that presses the toggle still integrates under the state
    // the frame started with; the next frame is gated.
    let plugin = PlayerPlugin::build();
    let mut window = Some(captured_window());
    let mut ctrl = level_controller();
    let input = snapshot(vec![Key::KeyW], vec![Key::Escape], vec![]);
    plugin.update(&input, 100_000, 0, 1_000_000, &mut window, &mut ctrl);
    assert_eq!(ctrl.transform.z, -1_200_000);
    assert_eq!(window.unwrap().grab_mode, CursorGrabState::Free);
    let input = snapshot(vec![Key::KeyW], vec![], vec![]);
    plugin.update(&input, 100_000, 0, 1_000_000, &mut window, &mut ctrl);
    assert_eq!(ctrl.transform.z, -1_200_000);
}

#[test]
fn update_without_window_is_noop() {
    let plugin = PlayerPlugin::build();
    let input = snapshot(vec![Key::KeyW], vec![Key::Escape], vec![MouseDelta { dx: 9, dy: 9 }]);
    let mut window: Option<WindowState> = None;
    let mut ctrl = level_controller();
    plugin.update(&input, 100_000, 0, 1_000_000, &mut window, &mut ctrl);
    assert_eq!(ctrl.transform, level_controller().transform);
    assert!(window.is_none());
}

#[test]
fn setup_player_faces_origin_from_start_position() {
    let c = setup_player();
    assert_eq!(c.transform.x, -2_000_000);
    assert_eq!(c.transform.y, 5_000_000);
    assert_eq!(c.transform.z, 5_000_000);
    assert_eq!(c.transform.yaw, -380_506);
    assert_eq!(c.transform.pitch, -748_327);
}

#[test]
fn default_settings_and_binds() {
    let s = MouseSettings::default();
    assert_eq!(s.sensitivity, 150);
    assert_eq!(s.speed, 12_000_000);
    let b = KeyBinds::default();
    assert_eq!(b.forward, Key::KeyW);
    assert_eq!(b.backward, Key::KeyS);
    assert_eq!(b.left, Key::KeyA);
    assert_eq!(b.right, Key::KeyD);
    assert_eq!(b.jump, Key::Space);
    assert_eq!(b.crouch, Key::ShiftLeft);
    assert_eq!(b.grab_mouse_toggle, Key::Escape);
}
