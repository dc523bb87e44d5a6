use vstd::prelude::*;

use crate::input_action::{
    is_reset_from, read_amount, read_state, InputActionBehavior, InputActionBuilder,
    InputActionBuilderError, InputActionState,
};
use crate::input_manager::{is_key_press, is_key_release, InputManager};

verus! {

/// The logical controls of the application.
#[derive(Debug, Clone, Copy, PartialEq, Eq, Structural)]
pub enum InputActionType {
    ActionA,
}

/// Name of the action behind `InputActionType::ActionA`.
pub const ACTION_A_NAME: &'static str = "pressA";

/// The index, in an `InputManager`, of the action behind each control.
#[derive(Debug, Clone, Copy, PartialEq, Eq, Structural)]
pub struct InputActionMap {
    action_a: usize,
}

impl InputActionMap {
    pub closed spec fn index_of(&self, t: InputActionType) -> usize {
        match t {
            InputActionType::ActionA => self.action_a,
        }
    }

    pub fn get_input_action(&self, t: InputActionType) -> (r: usize)
        ensures
            r == self.index_of(t),
    {
        match t {
            InputActionType::ActionA => self.action_a,
        }
    }
}

/// Registers one action per control in `manager`, each released with
/// nothing accumulated and with the default behavior.
pub fn init_input_actions(manager: &mut InputManager) -> (r: Result<
    InputActionMap,
    InputActionBuilderError,
>)
    requires
        old(manager).wf(),
        old(manager).actions().len() < usize::MAX,
    ensures
        final(manager).wf(),
        final(manager).key_map() == old(manager).key_map(),
        final(manager).held() == old(manager).held(),
        r matches Ok(m) && m.index_of(InputActionType::ActionA) == old(manager).actions().len(),
        final(manager).actions().len() == old(manager).actions().len() + 1,
        final(manager).actions().subrange(0, old(manager).actions().len() as int) == old(
            manager,
        ).actions(),
        ({
            let a = final(manager).actions().last();
            &&& a.spec_name() == ACTION_A_NAME@
            &&& a.spec_behavior() == InputActionBehavior::DetectRepeat
            &&& a.spec_state() == InputActionState::Released
            &&& a.spec_amount() == 0
        }),
{
    let action_a = InputActionBuilder::default().name(ACTION_A_NAME.to_owned()).build()?;
    let ghost before = manager.actions();
    let id = manager.add_action(action_a);
    assert(manager.actions().subrange(0, before.len() as int) =~= before);
    Ok(InputActionMap { action_a: id })
}

/// The controls and a manager with `key_a` mapped to `ActionA`.
pub fn init_input(key_a: i32) -> (r: Result<(InputActionMap, InputManager), InputActionBuilderError>)
    ensures
        r matches Ok((m, im)) && {
            &&& im.wf()
            &&& im.actions().len() == 1
            &&& m.index_of(InputActionType::ActionA) == 0
            &&& im.key_map() == Map::<i32, usize>::empty().insert(key_a, 0)
            &&& im.held() == Map::<i32, usize>::empty()
            &&& im.actions()[0].spec_name() == ACTION_A_NAME@
            &&& im.actions()[0].spec_behavior() == InputActionBehavior::DetectRepeat
            &&& im.actions()[0].spec_state() == InputActionState::Released
            &&& im.actions()[0].spec_amount() == 0
        },
{
    let mut input_manager = InputManager::new();
    let input_actions = init_input_actions(&mut input_manager)?;
    input_manager.map_to_key(key_a, input_actions.get_input_action(InputActionType::ActionA));
    Ok((input_actions, input_manager))
}

/// One update tick's reading of the controls: `ActionA` is read when it
/// has something accumulated.
pub fn process_input_actions(manager: &mut InputManager, map: &InputActionMap)
    requires
        old(manager).wf(),
        map.index_of(InputActionType::ActionA) < old(manager).actions().len(),
    ensures
        final(manager).wf(),
        final(manager).key_map() == old(manager).key_map(),
        final(manager).held() == old(manager).held(),
        ({
            let id = map.index_of(InputActionType::ActionA) as int;
            let a = old(manager).actions()[id];
            let b = final(manager).actions()[id];
            &&& final(manager).actions() == old(manager).actions().update(id, b)
            &&& b.spec_name() == a.spec_name()
            &&& b.spec_behavior() == a.spec_behavior()
            &&& b.spec_state() == read_state(a.spec_behavior(), a.spec_state(), a.spec_amount())
            &&& b.spec_amount() == read_amount(a.spec_behavior(), a.spec_state(), a.spec_amount())
        }),
{
    let id = map.get_input_action(InputActionType::ActionA);
    if manager.action(id).is_pressed() {
        manager.get_amount(id);
    } else {
        assert(manager.actions().update(id as int, manager.actions()[id as int])
            =~= manager.actions());
    }
}

/// A platform event, reduced to what the loop acts on. Window events are
/// those of the application's own window.
#[derive(Debug, Clone, Copy, PartialEq, Eq, Structural)]
pub enum PlatformEvent {
    Quit,
    KeyDown { key: Option<i32> },
    KeyUp { key: Option<i32> },
    WindowClose,
    WindowSizeChanged { width: i32, height: i32 },
    Other,
}

/// What the loop does after one event.
#[derive(Debug, Clone, Copy, PartialEq, Eq, Structural)]
pub enum EventOutcome {
    Quit,
    Continue,
    /// The surface is to be configured to the new size.
    Resize { width: u32, height: u32 },
}

/// Before a batch of events: while the overlay has the input focus, key-up
/// edges do not reach the manager, so every held action is reset: released
/// with nothing accumulated.
pub fn release_on_overlay_focus(manager: &mut InputManager, overlay_wants_input: bool)
    requires
        old(manager).wf(),
    ensures
        final(manager).wf(),
        !overlay_wants_input ==> *final(manager) == *old(manager),
        overlay_wants_input ==> final(manager).held() == Map::<i32, usize>::empty(),
        final(manager).key_map() == old(manager).key_map(),
        final(manager).actions().len() == old(manager).actions().len(),
        forall|k: i32| #[trigger]
            old(manager).held().contains_key(k) && overlay_wants_input ==> is_reset_from(
                final(manager).actions()[old(manager).held()[k] as int],
                old(manager).actions()[old(manager).held()[k] as int],
            ),
        forall|j: int|
            0 <= j < old(manager).actions().len() && (forall|k: i32| #[trigger]
                old(manager).held().contains_key(k) ==> old(manager).held()[k] != j)
                ==> final(manager).actions()[j] == old(manager).actions()[j],
{
    if overlay_wants_input {
        manager.release_all();
    }
}

/// Routes one event: a quit request, the `escape_key` or closing the window
/// ends the loop; a size change to a positive size asks for a resize; key
/// edges reach the manager unless the overlay has the input focus.
pub fn handle_event(
    manager: &mut InputManager,
    event: PlatformEvent,
    escape_key: i32,
    overlay_wants_input: bool,
) -> (r: EventOutcome)
    requires
        old(manager).wf(),
    ensures
        final(manager).wf(),
        match event {
            PlatformEvent::Quit | PlatformEvent::WindowClose => {
                r == EventOutcome::Quit && *final(manager) == *old(manager)
            },
            PlatformEvent::KeyDown { key: Some(k) } => if k == escape_key {
                r == EventOutcome::Quit && *final(manager) == *old(manager)
            } else if overlay_wants_input {
                r == EventOutcome::Continue && *final(manager) == *old(manager)
            } else {
                r == EventOutcome::Continue && is_key_press(*old(manager), *final(manager), k)
            },
            PlatformEvent::KeyUp { key: Some(k) } => if overlay_wants_input {
                r == EventOutcome::Continue && *final(manager) == *old(manager)
            } else {
                r == EventOutcome::Continue && is_key_release(*old(manager), *final(manager), k)
            },
            PlatformEvent::WindowSizeChanged { width, height } => {
                &&& *final(manager) == *old(manager)
                &&& r == (if width > 0 && height > 0 {
                    EventOutcome::Resize { width: width as u32, height: height as u32 }
                } else {
                    EventOutcome::Continue
                })
            },
            _ => r == EventOutcome::Continue && *final(manager) == *old(manager),
        },
{
    match event {
        PlatformEvent::Quit | PlatformEvent::WindowClose => EventOutcome::Quit,
        PlatformEvent::KeyDown { key: Some(k) } => {
            if k == escape_key {
                EventOutcome::Quit
            } else {
                if !overlay_wants_input {
                    manager.key_pressed(k);
                }
                EventOutcome::Continue
            }
        },
        PlatformEvent::KeyUp { key: Some(k) } => {
            if !overlay_wants_input {
                manager.key_released(k);
            }
            EventOutcome::Continue
        },
        PlatformEvent::WindowSizeChanged { width, height } => {
            if width > 0 && height > 0 {
                EventOutcome::Resize { width: width as u32, height: height as u32 }
            } else {
                EventOutcome::Continue
            }
        },
        _ => EventOutcome::Continue,
    }
}

} // verus!
