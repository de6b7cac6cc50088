use vulkan_engine::input::{Input, InputEvent};

const W: usize = 22;
const LALT: usize = 97;
const RETURN: usize = 74;

#[test]
fn a_press_counts_as_gone_down_for_one_frame() {
    let mut input = Input::new();
    assert!(input.get_button_up(W));
    input.update(&InputEvent::Key { code: W, pressed: true }, true);
    assert!(input.get_button_down(W));
    assert!(input.get_button_was_down(W));
    input.rollover_state();
    assert!(input.get_button_down(W));
    assert!(!input.get_button_was_down(W));
    input.update(&InputEvent::Key { code: W, pressed: false }, true);
    assert!(input.get_button_up(W));
}

#[test]
fn events_without_focus_are_dropped_unless_asked_for() {
    let mut input = Input::new();
    input.update(&InputEvent::Key { code: W, pressed: true }, false);
    assert!(input.get_button_up(W));
    input.set_recieve_events_during_unfocus(true);
    input.update(&InputEvent::Key { code: W, pressed: true }, false);
    assert!(input.get_button_down(W));
    input.update(&InputEvent::MouseButton { button: 3, pressed: true }, false);
    input.update(&InputEvent::Other, false);
    assert!(input.get_button_down(W));
}

#[test]
fn alt_enter_toggles_fullscreen() {
    let mut input = Input::new();
    input.update(&InputEvent::Key { code: LALT, pressed: true }, true);
    input.rollover_state();
    assert_eq!(input.handle_builtin(LALT, RETURN, false), None);
    input.update(&InputEvent::Key { code: RETURN, pressed: true }, true);
    assert_eq!(input.handle_builtin(LALT, RETURN, false), Some(true));
    assert_eq!(input.handle_builtin(LALT, RETURN, true), Some(false));
    input.rollover_state();
    assert_eq!(input.handle_builtin(LALT, RETURN, true), None);
}
