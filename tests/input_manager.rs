use sdl_egui_wgpu_base::controls::{
    handle_event, init_input, process_input_actions, release_on_overlay_focus, EventOutcome,
    InputActionType, PlatformEvent,
};
use sdl_egui_wgpu_base::input_action::{InputAction, InputActionBehavior, InputActionState};
use sdl_egui_wgpu_base::input_manager::InputManager;

const KEY_A: i32 = 97;
const KEY_B: i32 = 98;
const ESCAPE: i32 = 27;

fn manager_with(behavior: InputActionBehavior) -> (InputManager, usize) {
    let mut m = InputManager::new();
    let id = m.add_action(InputAction::new("act".to_string(), behavior));
    m.map_to_key(KEY_A, id);
    (m, id)
}

#[test]
fn key_edges_reach_the_mapped_action() {
    let (mut m, id) = manager_with(InputActionBehavior::DetectRepeat);
    m.key_pressed(KEY_A);
    assert_eq!(m.action(id).state(), InputActionState::Pressed);
    m.key_pressed(KEY_A);
    m.key_released(KEY_A);
    assert_eq!(m.action(id).state(), InputActionState::Released);
    assert_eq!(m.get_amount(id), 1);
    assert_eq!(m.get_amount(id), 0);
}

#[test]
fn unmapped_keys_are_ignored() {
    let (mut m, id) = manager_with(InputActionBehavior::Normal);
    m.key_pressed(KEY_B);
    m.key_released(KEY_B);
    assert!(!m.action(id).is_pressed());
    assert_eq!(m.get_key_action(KEY_B), None);
}

#[test]
fn keys_can_share_and_remap_actions() {
    let (mut m, id) = manager_with(InputActionBehavior::Normal);
    m.map_to_key(KEY_B, id);
    m.key_pressed(KEY_A);
    m.key_pressed(KEY_B);
    assert_eq!(m.get_amount(id), 2);
    let other = m.add_action(InputAction::new("other".to_string(), InputActionBehavior::Normal));
    m.map_to_key(KEY_B, other);
    assert_eq!(m.get_key_action(KEY_A), Some(id));
    assert_eq!(m.get_key_action(KEY_B), Some(other));
}

#[test]
fn remapping_a_held_key_moves_its_release() {
    let (mut m, id) = manager_with(InputActionBehavior::DetectRepeat);
    let other = m.add_action(InputAction::new("other".to_string(), InputActionBehavior::DetectRepeat));
    m.key_pressed(KEY_A);
    m.map_to_key(KEY_A, other);
    m.key_released(KEY_A);
    assert_eq!(m.action(other).state(), InputActionState::Released);
    // the held key now belongs to the new action: release_all resets that one
    m.key_pressed(KEY_A);
    m.release_all();
    assert_eq!(m.action(other).state(), InputActionState::Released);
    assert!(!m.action(other).is_pressed());
    assert_eq!(m.get_key_action(KEY_A), Some(other));
    assert_ne!(id, other);
}

#[test]
fn release_all_releases_every_held_action() {
    let mut m = InputManager::new();
    let a = m.add_action(InputAction::new("a".to_string(), InputActionBehavior::DetectInitialPressOnly));
    let b = m.add_action(InputAction::new("b".to_string(), InputActionBehavior::Normal));
    let c = m.add_action(InputAction::new("c".to_string(), InputActionBehavior::Normal));
    m.map_to_key(KEY_A, a);
    m.map_to_key(KEY_B, b);
    m.map_to_key(3, c);
    m.key_pressed(KEY_A);
    assert_eq!(m.get_amount(a), 1);
    m.key_pressed(KEY_B);
    m.release_all();
    assert_eq!(m.action(a).state(), InputActionState::Released);
    assert!(!m.action(a).is_pressed());
    assert_eq!(m.action(b).state(), InputActionState::Released);
    assert_eq!(m.action(c).state(), InputActionState::Released);
    // a held action is left with nothing accumulated
    assert!(!m.action(b).is_pressed());
    assert_eq!(m.get_amount(b), 0);
    // a second release_all finds nothing held
    m.release_all();
    assert!(!m.action(a).is_pressed());
}

#[test]
fn init_input_maps_key_a() {
    let (map, mut m) = init_input(KEY_A).unwrap();
    let id = map.get_input_action(InputActionType::ActionA);
    assert_eq!(m.get_key_action(KEY_A), Some(id));
    assert_eq!(m.action(id).name(), "pressA");
    assert_eq!(m.action(id).behavior(), InputActionBehavior::DetectRepeat);
    m.key_pressed(KEY_A);
    process_input_actions(&mut m, &map);
    // held: a DetectRepeat action keeps its amount
    assert!(m.action(id).is_pressed());
    m.key_released(KEY_A);
    process_input_actions(&mut m, &map);
    assert!(!m.action(id).is_pressed());
}

#[test]
fn events_are_routed() {
    let (map, mut m) = init_input(KEY_A).unwrap();
    let id = map.get_input_action(InputActionType::ActionA);
    assert_eq!(handle_event(&mut m, PlatformEvent::KeyDown { key: Some(KEY_A) }, ESCAPE, false), EventOutcome::Continue);
    assert_eq!(m.action(id).state(), InputActionState::Pressed);
    assert_eq!(handle_event(&mut m, PlatformEvent::KeyUp { key: Some(KEY_A) }, ESCAPE, false), EventOutcome::Continue);
    assert_eq!(m.action(id).state(), InputActionState::Released);
    assert_eq!(handle_event(&mut m, PlatformEvent::KeyDown { key: Some(ESCAPE) }, ESCAPE, true), EventOutcome::Quit);
    assert_eq!(handle_event(&mut m, PlatformEvent::Quit, ESCAPE, false), EventOutcome::Quit);
    assert_eq!(handle_event(&mut m, PlatformEvent::WindowClose, ESCAPE, false), EventOutcome::Quit);
    assert_eq!(
        handle_event(&mut m, PlatformEvent::WindowSizeChanged { width: 800, height: 600 }, ESCAPE, false),
        EventOutcome::Resize { width: 800, height: 600 }
    );
    assert_eq!(
        handle_event(&mut m, PlatformEvent::WindowSizeChanged { width: 0, height: 600 }, ESCAPE, false),
        EventOutcome::Continue
    );
    assert_eq!(handle_event(&mut m, PlatformEvent::KeyDown { key: None }, ESCAPE, false), EventOutcome::Continue);
    assert_eq!(handle_event(&mut m, PlatformEvent::Other, ESCAPE, false), EventOutcome::Continue);
}

#[test]
fn overlay_focus_blocks_keys_and_releases_held() {
    let (map, mut m) = init_input(KEY_A).unwrap();
    let id = map.get_input_action(InputActionType::ActionA);
    handle_event(&mut m, PlatformEvent::KeyDown { key: Some(KEY_A) }, ESCAPE, false);
    release_on_overlay_focus(&mut m, true);
    assert_eq!(m.action(id).state(), InputActionState::Released);
    assert!(!m.action(id).is_pressed());
    handle_event(&mut m, PlatformEvent::KeyDown { key: Some(KEY_A) }, ESCAPE, true);
    assert_eq!(m.action(id).state(), InputActionState::Released);
    release_on_overlay_focus(&mut m, false);
    assert_eq!(m.action(id).state(), InputActionState::Released);
}
