use micro_jam_engine::{Input, InputEvent, KeyState};

const K: u32 = 17;
const OTHER: u32 = 30;

fn down(key: u32) -> InputEvent {
    InputEvent::KeyboardInput { key, state: KeyState::Pressed }
}

fn up(key: u32) -> InputEvent {
    InputEvent::KeyboardInput { key, state: KeyState::NotPressed }
}

#[test]
fn new_tracker_is_empty() {
    let input = Input::new();
    assert!(!input.key_held(K));
    assert!(!input.key_pressed(K));
    assert!(!input.key_released(K));
    assert_eq!(input.key(K), KeyState::NotPressed);
    assert!(input.queue().is_empty());
}

#[test]
fn key_down_tick_key_up_scenario() {
    let mut input = Input::new();
    assert!(!input.key_held(K));
    input.record(down(K));
    // The tick that follows the key-down sees the key held and pressed.
    assert!(input.key_held(K));
    assert!(input.key_pressed(K));
    input.end_tick();
    // Between the two events the key stays held, but is pressed no more.
    assert!(input.key_held(K));
    assert!(!input.key_pressed(K));
    input.record(up(K));
    assert!(!input.key_held(K));
    assert!(!input.key_pressed(K));
    assert!(input.key_released(K));
    input.end_tick();
    assert!(!input.key_held(K));
    assert!(!input.key_pressed(K));
    assert!(!input.key_released(K));
}

#[test]
fn held_follows_events_across_ticks() {
    let mut input = Input::new();
    input.record(down(K));
    for _ in 0..3 {
        input.end_tick();
        assert!(input.key_held(K));
        assert_eq!(input.key(K), KeyState::Pressed);
        assert!(!input.key_held(OTHER));
    }
    input.record(up(K));
    assert_eq!(input.key(K), KeyState::NotPressed);
}

#[test]
fn key_repeat_is_no_new_press() {
    let mut input = Input::new();
    input.record(down(K));
    input.record(down(K));
    assert!(input.key_pressed(K));
    assert_eq!(input.queue().len(), 2);
    input.end_tick();
    input.record(down(K));
    assert!(input.key_held(K));
    assert!(!input.key_pressed(K));
    assert_eq!(input.queue(), &[down(K)]);
    input.record(up(K));
    assert!(!input.key_held(K));
    assert!(input.key_released(K));
}

#[test]
fn key_up_without_down_is_no_release() {
    let mut input = Input::new();
    input.record(up(K));
    assert!(!input.key_held(K));
    assert!(!input.key_released(K));
    assert_eq!(input.queue(), &[up(K)]);
}

#[test]
fn press_and_release_within_one_tick() {
    let mut input = Input::new();
    input.record(down(K));
    input.record(up(K));
    assert!(!input.key_held(K));
    assert!(input.key_pressed(K));
    assert!(input.key_released(K));
    input.record(down(K));
    assert!(input.key_held(K));
    input.end_tick();
    assert!(input.key_held(K));
    assert!(!input.key_pressed(K));
    assert!(!input.key_released(K));
}

#[test]
fn keys_are_tracked_apart() {
    let mut input = Input::new();
    input.record(down(K));
    input.record(down(OTHER));
    input.record(up(K));
    assert!(!input.key_held(K));
    assert!(input.key_held(OTHER));
    assert!(input.key_pressed(K));
    assert!(input.key_pressed(OTHER));
    assert!(input.key_released(K));
    assert!(!input.key_released(OTHER));
    assert!(!input.key_held(0));
    assert!(!input.key_held(u32::MAX));
}

#[test]
fn queue_keeps_the_order_and_is_drained_once() {
    let mut input = Input::new();
    let events = [
        down(K),
        InputEvent::CursorMoved { x: 3, y: -4 },
        down(OTHER),
        InputEvent::CursorMoved { x: 5, y: 6 },
        up(K),
    ];
    for e in events {
        input.record(e);
    }
    assert_eq!(input.queue(), &events);
    input.end_tick();
    assert!(input.queue().is_empty());
    input.record(InputEvent::CursorMoved { x: 1, y: 1 });
    assert_eq!(input.queue(), &[InputEvent::CursorMoved { x: 1, y: 1 }]);
    input.end_tick();
    input.end_tick();
    assert!(input.queue().is_empty());
    assert!(input.key_held(OTHER));
}

#[test]
fn cursor_moves_touch_no_key() {
    let mut input = Input::new();
    input.record(down(K));
    input.record(InputEvent::CursorMoved { x: i64::MIN, y: i64::MAX });
    assert!(input.key_held(K));
    assert!(input.key_pressed(K));
    assert!(!input.key_released(K));
}

#[test]
fn snapshot_is_a_copy() {
    let mut input = Input::new();
    input.record(down(K));
    input.record(InputEvent::CursorMoved { x: 1, y: 2 });
    let seen = input.snapshot();
    input.record(up(K));
    input.record(down(OTHER));
    input.end_tick();
    assert!(seen.key_held(K));
    assert!(seen.key_pressed(K));
    assert!(!seen.key_released(K));
    assert!(!seen.key_held(OTHER));
    assert_eq!(seen.queue(), &[down(K), InputEvent::CursorMoved { x: 1, y: 2 }]);
    assert!(!input.key_held(K));
    assert!(input.key_held(OTHER));
}
