use wgpu_owo::config::KEY_COUNT;
use wgpu_owo::input::{next_frame_step, Direction, DirectionKeys, Directions, FrameStep, InputHandler};

const ARROWS: DirectionKeys = DirectionKeys { up: 10, down: 11, left: 12, right: 13 };

#[test]
fn keys_are_held_until_released() {
    let mut input = InputHandler::new();
    assert!(input.is_still());
    input.insert_key(42);
    assert!(input.has_key(42));
    assert!(!input.has_key(43));
    assert!(!input.is_still());
    input.remove_key(42);
    assert!(!input.has_key(42));
    assert!(input.is_still());
}

#[test]
fn out_of_range_keys_are_ignored() {
    let mut input = InputHandler::new();
    input.insert_key(KEY_COUNT);
    assert!(!input.has_key(KEY_COUNT));
    assert!(input.is_still());
    input.insert_key(KEY_COUNT - 1);
    assert!(input.has_key(KEY_COUNT - 1));
}

#[test]
fn directions_prefer_down_and_right() {
    let mut input = InputHandler::new();
    assert_eq!(input.get_directions(ARROWS), Directions { x: Direction::Still, y: Direction::Still });
    input.insert_key(ARROWS.up);
    input.insert_key(ARROWS.left);
    assert_eq!(input.get_directions(ARROWS), Directions { x: Direction::Left, y: Direction::Up });
    input.insert_key(ARROWS.down);
    input.insert_key(ARROWS.right);
    assert_eq!(input.get_directions(ARROWS), Directions { x: Direction::Right, y: Direction::Down });
    input.remove_key(ARROWS.down);
    assert_eq!(input.get_directions(ARROWS).y, Direction::Up);
}

#[test]
fn click_triggers_once_per_press() {
    let mut input = InputHandler::new();
    assert!(!input.has_triggered(0));
    input.button_pressed(0);
    assert!(input.has_triggered(0));
    assert!(!input.has_triggered(1));
    input.update_for_next_frame();
    assert!(!input.has_triggered(0));
    input.button_released(0);
    input.update_for_next_frame();
    input.button_pressed(0);
    assert!(input.has_triggered(0));
    input.button_pressed(3);
    assert!(!input.has_triggered(3));
}

#[test]
fn frame_step_follows_pause_rules() {
    assert_eq!(next_frame_step(false, true, false), FrameStep::Idle);
    assert_eq!(next_frame_step(false, false, true), FrameStep::Idle);
    assert_eq!(next_frame_step(true, true, true), FrameStep::TogglePause);
    assert_eq!(next_frame_step(true, false, true), FrameStep::TogglePause);
    assert_eq!(next_frame_step(true, false, false), FrameStep::Paused);
    assert_eq!(next_frame_step(true, true, false), FrameStep::Advance);
}

#[test]
fn direction_defaults_to_still() {
    assert_eq!(Direction::default(), Direction::Still);
}

#[test]
fn run_state_starts_running_and_two_toggles_restore_it() {
    let mut state = wgpu_owo::input::RunState::new();
    assert!(state.is_running());
    state.toggle_running();
    assert!(!state.is_running());
    state.toggle_running();
    assert!(state.is_running());
}
