use vstd::prelude::*;

use crate::input_action::{
    is_released_from, is_reset_from, pressed_amount, pressed_state, read_amount, read_state, InputAction,
};
use crate::key_map::{
    find_key, insert_key, keys_unique, lemma_map_of_dom, lemma_map_of_index, lookup, map_of,
    remove_key,
};

verus! {

/// Routes key edges to the actions that keys are mapped to.
///
/// The actions live in one registry and are named by their index there, so
/// several keys can share one action.
pub struct InputManager {
    actions: Vec<InputAction>,
    key_actions: Vec<(i32, usize)>,
    pressed_keys: Vec<(i32, usize)>,
}

/// `after` is `before` after a press edge of `key`: the action it is mapped
/// to takes a press of one unit and the key is held; an unmapped key changes
/// nothing.
pub open spec fn is_key_press(before: InputManager, after: InputManager, key: i32) -> bool {
    &&& after.key_map() == before.key_map()
    &&& after.actions().len() == before.actions().len()
    &&& match before.key_map().get(key) {
        Some(id) => {
            let a = before.actions()[id as int];
            let b = after.actions()[id as int];
            &&& after.held() == before.held().insert(key, id)
            &&& after.actions() == before.actions().update(id as int, b)
            &&& b.spec_name() == a.spec_name()
            &&& b.spec_behavior() == a.spec_behavior()
            &&& b.spec_state() == pressed_state(a.spec_state())
            &&& b.spec_amount() == pressed_amount(
                a.spec_behavior(),
                a.spec_state(),
                a.spec_amount(),
                1,
            )
        },
        None => {
            &&& after.held() == before.held()
            &&& after.actions() == before.actions()
        },
    }
}

/// `after` is `before` after a release edge of `key`: the action it is
/// mapped to is released and the key is no longer held; an unmapped key
/// changes nothing.
pub open spec fn is_key_release(before: InputManager, after: InputManager, key: i32) -> bool {
    &&& after.key_map() == before.key_map()
    &&& after.actions().len() == before.actions().len()
    &&& match before.key_map().get(key) {
        Some(id) => {
            &&& after.held() == before.held().remove(key)
            &&& after.actions() == before.actions().update(id as int, after.actions()[id as int])
            &&& is_released_from(after.actions()[id as int], before.actions()[id as int])
        },
        None => {
            &&& after.held() == before.held()
            &&& after.actions() == before.actions()
        },
    }
}

impl InputManager {
    /// The registered actions, by index.
    pub closed spec fn actions(&self) -> Seq<InputAction> {
        self.actions@
    }

    /// Which action each mapped key drives.
    pub closed spec fn key_map(&self) -> Map<i32, usize> {
        map_of(self.key_actions@)
    }

    /// The keys held down now, with the action each of them pressed.
    pub closed spec fn held(&self) -> Map<i32, usize> {
        map_of(self.pressed_keys@)
    }

    pub closed spec fn wf(&self) -> bool {
        &&& keys_unique(self.key_actions@)
        &&& keys_unique(self.pressed_keys@)
        &&& forall|i: int|
            0 <= i < self.key_actions@.len() ==> (#[trigger] self.key_actions@[i]).1
                < self.actions@.len()
        &&& forall|i: int|
            0 <= i < self.pressed_keys@.len() ==> (#[trigger] self.pressed_keys@[i]).1
                < self.actions@.len()
        &&& forall|k: i32| #[trigger]
            map_of(self.pressed_keys@).contains_key(k) ==> map_of(
                self.key_actions@,
            ).contains_key(k) && map_of(self.key_actions@)[k] == map_of(self.pressed_keys@)[k]
    }

    proof fn lemma_wf_maps(&self)
        requires
            self.wf(),
        ensures
            forall|k: i32| #[trigger]
                self.key_map().contains_key(k) ==> self.key_map()[k] < self.actions().len(),
            forall|k: i32| #[trigger]
                self.held().contains_key(k) ==> self.held()[k] < self.actions().len(),
            forall|k: i32| #[trigger]
                self.held().contains_key(k) ==> self.key_map().contains_key(k)
                    && self.key_map()[k] == self.held()[k],
    {
        assert forall|k: i32| #[trigger] self.key_map().contains_key(k) implies self.key_map()[k]
            < self.actions().len() by {
            lemma_map_of_dom(self.key_actions@, k);
            let i = choose|i: int| 0 <= i < self.key_actions@.len() && self.key_actions@[i].0 == k;
            lemma_map_of_index(self.key_actions@, i);
        }
        assert forall|k: i32| #[trigger] self.held().contains_key(k) implies self.held()[k]
            < self.actions().len() by {
            lemma_map_of_dom(self.pressed_keys@, k);
            let i = choose|i: int|
                0 <= i < self.pressed_keys@.len() && self.pressed_keys@[i].0 == k;
            lemma_map_of_index(self.pressed_keys@, i);
        }
    }

    /// No actions, no keys.
    pub fn new() -> (r: InputManager)
        ensures
            r.wf(),
            r.actions().len() == 0,
            r.key_map() == Map::<i32, usize>::empty(),
            r.held() == Map::<i32, usize>::empty(),
    {
        InputManager { actions: Vec::new(), key_actions: Vec::new(), pressed_keys: Vec::new() }
    }

    /// Registers `action` and returns its index.
    pub fn add_action(&mut self, action: InputAction) -> (r: usize)
        requires
            old(self).wf(),
            old(self).actions().len() < usize::MAX,
        ensures
            final(self).wf(),
            r == old(self).actions().len(),
            final(self).actions() == old(self).actions().push(action),
            final(self).key_map() == old(self).key_map(),
            final(self).held() == old(self).held(),
    {
        self.actions.push(action);
        self.actions.len() - 1
    }

    /// The action at index `id`.
    pub fn action(&self, id: usize) -> (r: &InputAction)
        requires
            id < self.actions().len(),
        ensures
            *r == self.actions()[id as int],
    {
        &self.actions[id]
    }

    /// Maps `key` to the action at index `action`, replacing an earlier mapping.
    /// A held key then counts as holding its new action, so that its key-up
    /// edge releases the action it is mapped to.
    pub fn map_to_key(&mut self, key: i32, action: usize)
        requires
            old(self).wf(),
            action < old(self).actions().len(),
        ensures
            final(self).wf(),
            final(self).actions() == old(self).actions(),
            final(self).key_map() == old(self).key_map().insert(key, action),
            final(self).held() == (if old(self).held().contains_key(key) {
                old(self).held().insert(key, action)
            } else {
                old(self).held()
            }),
    {
        proof {
            lemma_map_of_dom(self.pressed_keys@, key);
        }
        insert_key(&mut self.key_actions, key, action);
        if find_key(&self.pressed_keys, key).is_some() {
            insert_key(&mut self.pressed_keys, key, action);
        }
    }

    /// The index of the action that `key` drives.
    pub fn get_key_action(&self, key: i32) -> (r: Option<usize>)
        requires
            self.wf(),
        ensures
            r == self.key_map().get(key),
    {
        lookup(&self.key_actions, key)
    }

    /// A press edge of `key`: presses its action and records the key as held.
    /// An unmapped key is ignored.
    pub fn key_pressed(&mut self, key: i32)
        requires
            old(self).wf(),
        ensures
            final(self).wf(),
            is_key_press(*old(self), *final(self), key),
    {
        proof {
            self.lemma_wf_maps();
        }
        if let Some(id) = lookup(&self.key_actions, key) {
            assert(self.key_map().contains_key(key));
            self.actions[id].press();
            insert_key(&mut self.pressed_keys, key, id);
        }
    }

    /// A release edge of `key`: releases its action and forgets the key as held.
    /// An unmapped key is ignored.
    pub fn key_released(&mut self, key: i32)
        requires
            old(self).wf(),
        ensures
            final(self).wf(),
            is_key_release(*old(self), *final(self), key),
    {
        proof {
            self.lemma_wf_maps();
        }
        if let Some(id) = lookup(&self.key_actions, key) {
            assert(self.key_map().contains_key(key));
            self.actions[id].release();
            remove_key(&mut self.pressed_keys, key);
        }
    }

    /// Resets the action of every held key, releasing it with nothing
    /// accumulated, and forgets all held keys, as when another layer takes the
    /// input focus and key-up edges stop coming.
    pub fn release_all(&mut self)
        requires
            old(self).wf(),
        ensures
            final(self).wf(),
            final(self).key_map() == old(self).key_map(),
            final(self).held() == Map::<i32, usize>::empty(),
            final(self).actions().len() == old(self).actions().len(),
            forall|k: i32| #[trigger]
                old(self).held().contains_key(k) ==> is_reset_from(
                    final(self).actions()[old(self).held()[k] as int],
                    old(self).actions()[old(self).held()[k] as int],
                ),
            forall|j: int|
                0 <= j < old(self).actions().len() && (forall|k: i32| #[trigger]
                    old(self).held().contains_key(k) ==> old(self).held()[k] != j)
                    ==> final(self).actions()[j] == old(self).actions()[j],
    {
        let ghost before = self.actions@;
        let ghost pressed = self.pressed_keys@;
        let mut i: usize = 0;
        while i < self.pressed_keys.len()
            invariant
                self.wf(),
                self.pressed_keys@ == pressed,
                self.key_map() == old(self).key_map(),
                self.actions@.len() == before.len(),
                i <= pressed.len(),
                forall|j: int|
                    0 <= j < before.len() ==> {
                        if exists|p: int| 0 <= p < i && (#[trigger] pressed[p]).1 == j {
                            is_reset_from(self.actions@[j], before[j])
                        } else {
                            self.actions@[j] == before[j]
                        }
                    },
            decreases pressed.len() - i,
        {
            let id = self.pressed_keys[i].1;
            let ghost mid = self.actions@;
            self.actions[id].reset();
            proof {
                assert forall|j: int|
                    0 <= j < before.len() implies {
                    if exists|p: int| 0 <= p < i + 1 && (#[trigger] pressed[p]).1 == j {
                        is_reset_from(self.actions@[j], before[j])
                    } else {
                        self.actions@[j] == before[j]
                    }
                } by {
                    if j == id {
                        assert(pressed[i as int].1 == j);
                    } else {
                        assert(self.actions@[j] == mid[j]);
                        if exists|p: int| 0 <= p < i + 1 && (#[trigger] pressed[p]).1 == j {
                            let p = choose|p: int| 0 <= p < i + 1 && (#[trigger] pressed[p]).1 == j;
                            assert(p < i);
                        }
                    }
                }
            }
            i = i + 1;
        }
        self.pressed_keys.clear();
        proof {
            assert(map_of(self.pressed_keys@) =~= Map::<i32, usize>::empty());
            assert forall|k: i32| #[trigger] map_of(pressed).contains_key(k) implies {
                let j = map_of(pressed)[k] as int;
                exists|p: int| 0 <= p < pressed.len() && (#[trigger] pressed[p]).1 == j
            } by {
                lemma_map_of_dom(pressed, k);
                let p = choose|p: int| 0 <= p < pressed.len() && pressed[p].0 == k;
                lemma_map_of_index(pressed, p);
            }
            assert forall|j: int|
                0 <= j < old(self).actions().len() && (forall|k: i32| #[trigger]
                    old(self).held().contains_key(k) ==> old(self).held()[k] != j) implies
                self.actions()[j] == old(self).actions()[j] by {
                assert(old(self).held() == map_of(pressed));
                if exists|p: int| 0 <= p < pressed.len() && (#[trigger] pressed[p]).1 == j {
                    let p = choose|p: int| 0 <= p < pressed.len() && (#[trigger] pressed[p]).1 == j;
                    lemma_map_of_index(pressed, p);
                    let k = pressed[p].0;
                    assert(map_of(pressed).contains_key(k));
                    assert(map_of(pressed)[k] == j);
                    assert(false);
                }
                assert(i == pressed.len());
            }
        }
    }

    /// Reads the action at index `id` as `InputAction::get_amount` does.
    pub fn get_amount(&mut self, id: usize) -> (r: i32)
        requires
            old(self).wf(),
            id < old(self).actions().len(),
        ensures
            final(self).wf(),
            final(self).key_map() == old(self).key_map(),
            final(self).held() == old(self).held(),
            final(self).actions() == old(self).actions().update(
                id as int,
                final(self).actions()[id as int],
            ),
            ({
                let a = old(self).actions()[id as int];
                let b = final(self).actions()[id as int];
                &&& r == a.spec_amount()
                &&& b.spec_name() == a.spec_name()
                &&& b.spec_behavior() == a.spec_behavior()
                &&& b.spec_state() == read_state(a.spec_behavior(), a.spec_state(), a.spec_amount())
                &&& b.spec_amount() == read_amount(
                    a.spec_behavior(),
                    a.spec_state(),
                    a.spec_amount(),
                )
            }),
    {
        self.actions[id].get_amount()
    }
}

} // verus!
