use sdl_egui_wgpu_base::input_action::{
    saturating_add, InputAction, InputActionBehavior, InputActionBuilder, InputActionBuilderError,
    InputActionState,
};

fn action(behavior: InputActionBehavior) -> InputAction {
    InputAction::new("test".to_string(), behavior)
}

#[test]
fn tap_yields_one_unit_for_every_behavior() {
    for behavior in [
        InputActionBehavior::Normal,
        InputActionBehavior::DetectRepeat,
        InputActionBehavior::DetectInitialPressOnly,
    ] {
        let mut a = action(behavior);
        a.tap();
        assert_eq!(a.state(), InputActionState::Released);
        assert!(a.is_pressed());
        assert_eq!(a.get_amount(), 1);
        assert_eq!(a.get_amount(), 0);
        assert!(!a.is_pressed());
    }
}

#[test]
fn detect_repeat_counts_one_press_while_held() {
    let mut a = action(InputActionBehavior::DetectRepeat);
    for _ in 0..7 {
        a.press();
    }
    assert_eq!(a.get_amount(), 1);
    // still held: the amount stays for the next read
    assert_eq!(a.get_amount(), 1);
    a.release();
    assert_eq!(a.get_amount(), 1);
    assert_eq!(a.get_amount(), 0);
}

#[test]
fn normal_counts_every_press() {
    let mut a = action(InputActionBehavior::Normal);
    for _ in 0..7 {
        a.press();
    }
    assert_eq!(a.get_amount(), 7);
}

#[test]
fn normal_press_with_accumulates_amounts() {
    let mut a = action(InputActionBehavior::Normal);
    a.press_with(3);
    a.press_with(2);
    assert_eq!(a.get_amount(), 5);
}

#[test]
fn initial_press_only_reads_once_until_release() {
    let mut a = action(InputActionBehavior::DetectInitialPressOnly);
    a.press();
    assert_eq!(a.get_amount(), 1);
    assert_eq!(a.state(), InputActionState::WaitingForRelease);
    assert_eq!(a.get_amount(), 0);
    a.press();
    a.press();
    assert_eq!(a.get_amount(), 0);
    a.release();
    assert_eq!(a.get_amount(), 0);
    a.press();
    assert_eq!(a.get_amount(), 1);
}

#[test]
fn press_saturates_at_the_bounds() {
    let mut a = action(InputActionBehavior::Normal);
    a.press_with(i32::MAX);
    a.press_with(5);
    assert_eq!(a.get_amount(), i32::MAX);
    let mut b = action(InputActionBehavior::Normal);
    b.press_with(i32::MIN);
    b.press_with(-1);
    assert_eq!(b.get_amount(), i32::MIN);
    assert_eq!(saturating_add(2, 3), 5);
    assert_eq!(saturating_add(i32::MAX, 1), i32::MAX);
    assert_eq!(saturating_add(i32::MIN, -1), i32::MIN);
}

#[test]
fn reset_clears_amount_and_state() {
    let mut a = action(InputActionBehavior::Normal);
    a.press_with(4);
    a.reset();
    assert_eq!(a.state(), InputActionState::Released);
    assert!(!a.is_pressed());
    assert_eq!(a.get_amount(), 0);
}

#[test]
fn release_keeps_amount_until_read() {
    let mut a = action(InputActionBehavior::Normal);
    a.press_with(2);
    a.release();
    assert!(a.is_pressed());
    assert_eq!(a.get_amount(), 2);
    assert!(!a.is_pressed());
}

#[test]
fn builder_defaults_to_detect_repeat() {
    let a = InputActionBuilder::default().name("pressA".to_string()).build().unwrap();
    assert_eq!(a.name(), "pressA");
    assert_eq!(a.behavior(), InputActionBehavior::DetectRepeat);
    assert_eq!(a.state(), InputActionState::Released);
    assert!(!a.is_pressed());
    let b = InputActionBuilder::default()
        .behavior(InputActionBehavior::Normal)
        .name("move".to_string())
        .build()
        .unwrap();
    assert_eq!(b.behavior(), InputActionBehavior::Normal);
}

#[test]
fn builder_without_name_fails() {
    let r = InputActionBuilder::default().behavior(InputActionBehavior::Normal).build();
    assert_eq!(r.err(), Some(InputActionBuilderError::MissingName));
}
