use rusty_tetris::keys::{Control, ControlState, KeyState, KeyStateType};

#[test]
fn tap_within_a_tick_fires_once_then_idles() {
    let mut k = KeyState::new();
    k.update_on_press();
    k.update_on_release();
    assert!(k.is_active());
    assert_eq!(k.press_count, 1);
    k.update_by_time();
    assert_eq!(k.press_count, 0);
    assert_eq!(k.state_type, KeyStateType::Released);
    assert!(!k.is_active());
}

#[test]
fn hold_across_a_tick_autorepeats_until_release() {
    let mut k = KeyState::new();
    k.update_on_press();
    k.update_by_time();
    assert_eq!(k.state_type, KeyStateType::PressedLongTime);
    for _ in 0..5 {
        assert!(k.is_active());
        assert_eq!(k.press_count, 1);
        k.update_by_time();
        assert_eq!(k.state_type, KeyStateType::PressedLongTime);
    }
    k.update_on_release();
    assert_eq!(k, KeyState::new());
}

#[test]
fn repeated_taps_in_one_tick_accumulate_then_reset() {
    let mut k = KeyState::new();
    for _ in 0..3 {
        k.update_on_press();
        k.update_on_press();
        k.update_on_release();
    }
    assert_eq!(k.press_count, 3);
    k.update_by_time();
    assert_eq!(k, KeyState::new());
}

#[test]
fn pressed_twice_and_held_is_reset_at_the_tick() {
    let mut k = KeyState::new();
    k.update_on_press();
    k.update_on_release();
    k.update_on_press();
    assert_eq!(k.press_count, 2);
    k.update_by_time();
    assert_eq!(k, KeyState::new());
}

#[test]
fn release_of_released_key_changes_nothing() {
    let mut k = KeyState::new();
    k.update_on_release();
    assert_eq!(k, KeyState::new());
    k.reset();
    assert_eq!(k, KeyState::new());
}

#[test]
fn control_state_routes_to_one_key() {
    let mut c = ControlState::new();
    c.press(Control::MoveLeft);
    assert_eq!(c.move_left.press_count, 1);
    assert_eq!(c.move_right, KeyState::new());
    assert_eq!(c.get(Control::MoveLeft).state_type, KeyStateType::Pressed);
    c.tick(Control::MoveLeft);
    assert_eq!(c.move_left.state_type, KeyStateType::PressedLongTime);
    c.release(Control::MoveLeft);
    assert_eq!(c.move_left, KeyState::new());
}
