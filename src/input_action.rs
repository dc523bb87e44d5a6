use vstd::prelude::*;

verus! {

/// How repeated press edges of one action are counted.
#[derive(Debug, Clone, Copy, PartialEq, Eq, Structural)]
pub enum InputActionBehavior {
    /// Every press adds its amount, held or not.
    Normal,
    /// Only the first press of a physical press adds; key repeats are ignored.
    DetectRepeat,
    /// Like `DetectRepeat`, and a read while held consumes the press until release.
    DetectInitialPressOnly,
}

/// Where an action stands in its press/release cycle.
#[derive(Debug, Clone, Copy, PartialEq, Eq, Structural)]
pub enum InputActionState {
    Released,
    Pressed,
    WaitingForRelease,
}

/// One logical control, fed by press/release edges and read once per tick.
#[derive(Debug)]
pub struct InputAction {
    name: String,
    behavior: InputActionBehavior,
    state: InputActionState,
    amount: i32,
}

/// `a + b`, clamped to the range of `i32`.
pub open spec fn sat_add(a: i32, b: i32) -> i32 {
    let s = a as int + b as int;
    if s > i32::MAX {
        i32::MAX
    } else if s < i32::MIN {
        i32::MIN
    } else {
        s as i32
    }
}

/// `a + b`, clamped to the range of `i32`.
pub fn saturating_add(a: i32, b: i32) -> (r: i32)
    ensures
        r == sat_add(a, b),
{
    let s: i64 = a as i64 + b as i64;
    if s > i32::MAX as i64 {
        i32::MAX
    } else if s < i32::MIN as i64 {
        i32::MIN
    } else {
        s as i32
    }
}

impl InputAction {
    pub closed spec fn spec_name(&self) -> Seq<char> {
        self.name@
    }

    pub closed spec fn spec_behavior(&self) -> InputActionBehavior {
        self.behavior
    }

    pub closed spec fn spec_state(&self) -> InputActionState {
        self.state
    }

    pub closed spec fn spec_amount(&self) -> i32 {
        self.amount
    }

    /// A released action with nothing accumulated.
    pub fn new(name: String, behavior: InputActionBehavior) -> (r: InputAction)
        ensures
            r.spec_name() == name@,
            r.spec_behavior() == behavior,
            r.spec_state() == InputActionState::Released,
            r.spec_amount() == 0,
    {
        InputAction { name, behavior, state: InputActionState::Released, amount: 0 }
    }

    pub fn name(&self) -> (r: &str)
        ensures
            r@ == self.spec_name(),
    {
        self.name.as_str()
    }

    /// Registers a press edge worth one unit.
    pub fn press(&mut self)
        ensures
            final(self).spec_name() == old(self).spec_name(),
            final(self).spec_behavior() == old(self).spec_behavior(),
            final(self).spec_state() == pressed_state(old(self).spec_state()),
            final(self).spec_amount() == pressed_amount(
                old(self).spec_behavior(),
                old(self).spec_state(),
                old(self).spec_amount(),
                1,
            ),
    {
        self.press_with(1);
    }

    /// Registers a press edge worth `amount`; the accumulator saturates at the
    /// bounds of `i32`.
    pub fn press_with(&mut self, amount: i32)
        ensures
            final(self).spec_name() == old(self).spec_name(),
            final(self).spec_behavior() == old(self).spec_behavior(),
            final(self).spec_state() == pressed_state(old(self).spec_state()),
            final(self).spec_amount() == pressed_amount(
                old(self).spec_behavior(),
                old(self).spec_state(),
                old(self).spec_amount(),
                amount,
            ),
    {
        if self.state != InputActionState::WaitingForRelease {
            match self.behavior {
                InputActionBehavior::Normal => {
                    self.amount = saturating_add(self.amount, amount);
                },
                InputActionBehavior::DetectRepeat | InputActionBehavior::DetectInitialPressOnly => {
                    if self.state != InputActionState::Pressed {
                        self.amount = saturating_add(self.amount, amount);
                    }
                },
            }
            self.state = InputActionState::Pressed;
        }
    }

    /// Registers a release edge; the accumulator is cleared by the next read.
    pub fn release(&mut self)
        ensures
            final(self).spec_name() == old(self).spec_name(),
            final(self).spec_behavior() == old(self).spec_behavior(),
            final(self).spec_state() == InputActionState::Released,
            final(self).spec_amount() == old(self).spec_amount(),
    {
        self.state = InputActionState::Released;
    }

    /// A press edge immediately followed by a release edge.
    pub fn tap(&mut self)
        ensures
            final(self).spec_name() == old(self).spec_name(),
            final(self).spec_behavior() == old(self).spec_behavior(),
            final(self).spec_state() == InputActionState::Released,
            final(self).spec_amount() == pressed_amount(
                old(self).spec_behavior(),
                old(self).spec_state(),
                old(self).spec_amount(),
                1,
            ),
    {
        self.press();
        self.release();
    }

    /// Whether anything is waiting to be read.
    pub fn is_pressed(&self) -> (r: bool)
        ensures
            r == (self.spec_amount() != 0),
    {
        self.amount != 0
    }

    /// Back to released with nothing accumulated.
    pub fn reset(&mut self)
        ensures
            final(self).spec_name() == old(self).spec_name(),
            final(self).spec_behavior() == old(self).spec_behavior(),
            final(self).spec_state() == InputActionState::Released,
            final(self).spec_amount() == 0,
    {
        self.state = InputActionState::Released;
        self.amount = 0;
    }

    /// Returns the accumulated amount, then consumes it: a read after the
    /// release clears it, a read of a held `DetectInitialPressOnly` action
    /// clears it and waits for the release, and a read of another held
    /// action leaves it for the next read.
    pub fn get_amount(&mut self) -> (r: i32)
        ensures
            r == old(self).spec_amount(),
            final(self).spec_name() == old(self).spec_name(),
            final(self).spec_behavior() == old(self).spec_behavior(),
            final(self).spec_state() == read_state(
                old(self).spec_behavior(),
                old(self).spec_state(),
                old(self).spec_amount(),
            ),
            final(self).spec_amount() == read_amount(
                old(self).spec_behavior(),
                old(self).spec_state(),
                old(self).spec_amount(),
            ),
    {
        let ret_val = self.amount;
        if ret_val != 0 {
            if self.state == InputActionState::Released {
                self.amount = 0;
            } else if self.behavior == InputActionBehavior::DetectInitialPressOnly {
                self.state = InputActionState::WaitingForRelease;
                self.amount = 0;
            }
        }
        ret_val
    }

    pub fn behavior(&self) -> (r: InputActionBehavior)
        ensures
            r == self.spec_behavior(),
    {
        self.behavior
    }

    pub fn state(&self) -> (r: InputActionState)
        ensures
            r == self.spec_state(),
    {
        self.state
    }
}

/// Why an action could not be built.
#[derive(Debug, Clone, Copy, PartialEq, Eq, Structural)]
pub enum InputActionBuilderError {
    /// No name was given.
    MissingName,
}

/// Collects the settings of an action; the behavior defaults to
/// `DetectRepeat`.
#[derive(Debug)]
pub struct InputActionBuilder {
    name: Option<String>,
    behavior: InputActionBehavior,
}

impl InputActionBuilder {
    pub closed spec fn spec_name(&self) -> Option<Seq<char>> {
        match self.name {
            Some(n) => Some(n@),
            None => None,
        }
    }

    pub closed spec fn spec_behavior(&self) -> InputActionBehavior {
        self.behavior
    }

    pub fn name(self, name: String) -> (r: InputActionBuilder)
        ensures
            r.spec_name() == Some(name@),
            r.spec_behavior() == self.spec_behavior(),
    {
        InputActionBuilder { name: Some(name), behavior: self.behavior }
    }

    pub fn behavior(self, behavior: InputActionBehavior) -> (r: InputActionBuilder)
        ensures
            r.spec_name() == self.spec_name(),
            r.spec_behavior() == behavior,
    {
        InputActionBuilder { name: self.name, behavior }
    }

    /// A released action with nothing accumulated; fails when no name was
    /// given.
    pub fn build(self) -> (r: Result<InputAction, InputActionBuilderError>)
        ensures
            match self.spec_name() {
                Some(n) => r matches Ok(a) && a.spec_name() == n && a.spec_behavior()
                    == self.spec_behavior() && a.spec_state() == InputActionState::Released
                    && a.spec_amount() == 0,
                None => r == Err::<InputAction, _>(InputActionBuilderError::MissingName),
            },
    {
        match self.name {
            Some(n) => Ok(InputAction::new(n, self.behavior)),
            None => Err(InputActionBuilderError::MissingName),
        }
    }
}

impl Default for InputActionBuilder {
    fn default() -> (r: InputActionBuilder)
        ensures
            r.spec_name() == None::<Seq<char>>,
            r.spec_behavior() == InputActionBehavior::DetectRepeat,
    {
        InputActionBuilder { name: None, behavior: InputActionBehavior::DetectRepeat }
    }
}

/// `after` is `before` released with nothing accumulated, all else kept.
pub open spec fn is_reset_from(after: InputAction, before: InputAction) -> bool {
    &&& after.spec_name() == before.spec_name()
    &&& after.spec_behavior() == before.spec_behavior()
    &&& after.spec_state() == InputActionState::Released
    &&& after.spec_amount() == 0
}

/// `after` is `before` with its state set to released and all else kept.
pub open spec fn is_released_from(after: InputAction, before: InputAction) -> bool {
    &&& after.spec_name() == before.spec_name()
    &&& after.spec_behavior() == before.spec_behavior()
    &&& after.spec_state() == InputActionState::Released
    &&& after.spec_amount() == before.spec_amount()
}

/// State after a press edge.
pub open spec fn pressed_state(state: InputActionState) -> InputActionState {
    if state == InputActionState::WaitingForRelease {
        InputActionState::WaitingForRelease
    } else {
        InputActionState::Pressed
    }
}

/// Amount after a press edge adding `by`.
pub open spec fn pressed_amount(
    behavior: InputActionBehavior,
    state: InputActionState,
    amount: i32,
    by: i32,
) -> i32 {
    if state == InputActionState::WaitingForRelease {
        amount
    } else if behavior == InputActionBehavior::Normal {
        sat_add(amount, by)
    } else if state != InputActionState::Pressed {
        sat_add(amount, by)
    } else {
        amount
    }
}

/// State after a read that returned `amount`.
pub open spec fn read_state(
    behavior: InputActionBehavior,
    state: InputActionState,
    amount: i32,
) -> InputActionState {
    if amount != 0 && state != InputActionState::Released && behavior
        == InputActionBehavior::DetectInitialPressOnly {
        InputActionState::WaitingForRelease
    } else {
        state
    }
}

/// Amount left after a read that returned `amount`.
pub open spec fn read_amount(
    behavior: InputActionBehavior,
    state: InputActionState,
    amount: i32,
) -> i32 {
    if amount == 0 {
        0
    } else if state == InputActionState::Released {
        0
    } else if behavior == InputActionBehavior::DetectInitialPressOnly {
        0
    } else {
        amount
    }
}

/// State and amount after `n` press edges of one unit each, with no release between.
pub open spec fn pressed_n_times(
    behavior: InputActionBehavior,
    state: InputActionState,
    amount: i32,
    n: nat,
) -> (InputActionState, i32)
    decreases n,
{
    if n == 0 {
        (state, amount)
    } else {
        let (s, a) = pressed_n_times(behavior, state, amount, (n - 1) as nat);
        (pressed_state(s), pressed_amount(behavior, s, a, 1))
    }
}

/// A tap on a released action with nothing accumulated leaves exactly one
/// unit, whatever the behavior; the next read returns it and clears it.
pub proof fn lemma_tap_yields_one(behavior: InputActionBehavior)
    ensures
        ({
            let a = pressed_amount(behavior, InputActionState::Released, 0, 1);
            &&& a == 1
            &&& read_amount(behavior, InputActionState::Released, a) == 0
            &&& read_state(behavior, InputActionState::Released, a) == InputActionState::Released
        }),
{
}

/// Press edges with no release between: a `DetectRepeat` action counts one,
/// a `Normal` action counts each of them.
pub proof fn lemma_repeated_presses(n: nat)
    requires
        1 <= n <= i32::MAX,
    ensures
        pressed_n_times(InputActionBehavior::DetectRepeat, InputActionState::Released, 0, n)
            == (InputActionState::Pressed, 1i32),
        pressed_n_times(InputActionBehavior::Normal, InputActionState::Released, 0, n)
            == (InputActionState::Pressed, n as i32),
    decreases n,
{
    reveal_with_fuel(pressed_n_times, 2);
    if n > 1 {
        lemma_repeated_presses((n - 1) as nat);
    }
}

/// State, amount and the values read after `ops` in order, from state `s`
/// with amount `a`: `true` is a press edge of one unit, `false` a read.
pub open spec fn after_ops(
    behavior: InputActionBehavior,
    s: InputActionState,
    a: i32,
    ops: Seq<bool>,
) -> (InputActionState, i32, Seq<i32>)
    decreases ops.len(),
{
    if ops.len() == 0 {
        (s, a, Seq::empty())
    } else {
        let (s1, a1, reads) = after_ops(behavior, s, a, ops.drop_last());
        if ops.last() {
            (pressed_state(s1), pressed_amount(behavior, s1, a1, 1), reads)
        } else {
            (read_state(behavior, s1, a1), read_amount(behavior, s1, a1), reads.push(a1))
        }
    }
}

/// A `DetectInitialPressOnly` action is read as pressed exactly once per
/// press: the first read after a press that leaves something accumulated
/// returns it and waits for the release; from then on, any presses and reads
/// without a release leave nothing and read 0; after the release a new press
/// counts one again.
pub proof fn lemma_initial_press_only(s: InputActionState, a: i32, ops: Seq<bool>)
    requires
        pressed_amount(InputActionBehavior::DetectInitialPressOnly, s, a, 1) != 0,
    ensures
        ({
            let b = InputActionBehavior::DetectInitialPressOnly;
            let s1 = pressed_state(s);
            let a1 = pressed_amount(b, s, a, 1);
            let (s3, a3, reads) = after_ops(b, read_state(b, s1, a1), read_amount(b, s1, a1), ops);
            &&& read_state(b, s1, a1) == InputActionState::WaitingForRelease
            &&& read_amount(b, s1, a1) == 0
            &&& s3 == InputActionState::WaitingForRelease
            &&& a3 == 0
            &&& forall|i: int| 0 <= i < reads.len() ==> reads[i] == 0
            &&& pressed_amount(b, InputActionState::Released, a3, 1) == 1
        }),
{
    lemma_waiting_stays_empty(ops);
}

proof fn lemma_waiting_stays_empty(ops: Seq<bool>)
    ensures
        ({
            let (s3, a3, reads) = after_ops(
                InputActionBehavior::DetectInitialPressOnly,
                InputActionState::WaitingForRelease,
                0,
                ops,
            );
            &&& s3 == InputActionState::WaitingForRelease
            &&& a3 == 0
            &&& forall|i: int| 0 <= i < reads.len() ==> reads[i] == 0
        }),
    decreases ops.len(),
{
    if ops.len() > 0 {
        lemma_waiting_stays_empty(ops.drop_last());
    }
}

} // verus!
