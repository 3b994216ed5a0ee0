//! Input bindings: from key and mouse events to the state of named actions.

use vstd::prelude::*;
use vstd::string::StringExecFns;
use crate::two::Vec2;
use crate::units::{sat, saturate, sat_add};

verus! {

/// A key, by its code in the X11 key symbol table.
pub type KeyCode = u16;

pub const KEY_SPACE: KeyCode = 0x0020;

pub const KEY_A: KeyCode = 0x0041;

pub const KEY_D: KeyCode = 0x0044;

pub const KEY_S: KeyCode = 0x0053;

pub const KEY_W: KeyCode = 0x0057;

pub const KEY_ESCAPE: KeyCode = 0xff1b;

pub const KEY_LEFT_SHIFT: KeyCode = 0xffe1;

/// One on an axis: an axis runs from `-AXIS_ONE` to `AXIS_ONE`.
pub const AXIS_ONE: i32 = 64;

/// One as a sensitivity: motion is taken as it comes.
pub const SENSITIVITY_ONE: i32 = 0x1_0000;

/// What an input says at the moment.
#[derive(Clone, Copy, PartialEq, Eq, Debug, Structural)]
pub enum InputState {
    /// Nothing yet.
    Unset,
    Button(bool),
    /// A position on one axis, in parts of [`AXIS_ONE`].
    Axis1(i32),
    /// A position on two axes.
    Axis2(Vec2),
}

impl InputState {
    /// The state read as a button: an axis counts as pressed from half its
    /// way on; two axes never do.
    pub open spec fn button(self) -> bool {
        match self {
            InputState::Unset => false,
            InputState::Button(b) => b,
            InputState::Axis1(v) => v >= AXIS_ONE / 2 || v <= -(AXIS_ONE / 2),
            InputState::Axis2(_) => false,
        }
    }

    /// The state read as one axis: a pressed button is one; two axes are
    /// zero.
    pub open spec fn axis1(self) -> i32 {
        match self {
            InputState::Unset => 0,
            InputState::Button(b) => if b {
                AXIS_ONE
            } else {
                0
            },
            InputState::Axis1(v) => v,
            InputState::Axis2(_) => 0,
        }
    }

    /// The state read as two axes: one axis is the first of the two; a
    /// button is zero.
    pub open spec fn axis2(self) -> Vec2 {
        match self {
            InputState::Unset => Vec2 { x: 0, y: 0 },
            InputState::Button(_) => Vec2 { x: 0, y: 0 },
            InputState::Axis1(v) => Vec2 { x: v, y: 0 },
            InputState::Axis2(v) => v,
        }
    }

    fn as_button(self) -> (pressed: bool)
        ensures
            pressed == self.button(),
    {
        match self {
            InputState::Unset => false,
            InputState::Button(b) => b,
            InputState::Axis1(v) => v >= AXIS_ONE / 2 || v <= -(AXIS_ONE / 2),
            InputState::Axis2(_) => false,
        }
    }

    fn as_axis1(self) -> (v: i32)
        ensures
            v == self.axis1(),
    {
        match self {
            InputState::Unset => 0,
            InputState::Button(b) => {
                if b {
                    AXIS_ONE
                } else {
                    0
                }
            },
            InputState::Axis1(v) => v,
            InputState::Axis2(_) => 0,
        }
    }

    fn as_axis2(self) -> (v: Vec2)
        ensures
            v == self.axis2(),
    {
        match self {
            InputState::Unset => Vec2 { x: 0, y: 0 },
            InputState::Button(_) => Vec2 { x: 0, y: 0 },
            InputState::Axis1(v) => Vec2 { x: v, y: 0 },
            InputState::Axis2(v) => v,
        }
    }
}

#[derive(Clone, Copy, PartialEq, Eq, Debug, Structural)]
pub enum MouseButton {
    Left,
    Middle,
    Right,
}

#[derive(Clone, Copy, PartialEq, Eq, Debug, Structural)]
pub enum InputEvent {
    Key { key: KeyCode, pressed: bool },
    /// The pointer is at this position.
    MouseMotion { position: Vec2 },
    /// The mouse has moved by this much.
    RawMouseMotion { delta: Vec2 },
    MouseButton { button: MouseButton, pressed: bool },
}

/// An action bound to a key.
#[derive(Clone, Copy, PartialEq, Eq, Debug, Structural)]
pub struct KeyBinding {
    pub key: KeyCode,
    pub pressed: bool,
}

impl KeyBinding {
    pub fn new(key: KeyCode) -> (binding: KeyBinding)
        ensures
            binding == (KeyBinding { key, pressed: false }),
    {
        KeyBinding { key, pressed: false }
    }

    /// Whether the event is about the key of this binding.
    pub open spec fn hears(self, event: InputEvent) -> bool {
        event matches InputEvent::Key { key, .. } && key == self.key
    }

    /// The binding after the event.
    pub open spec fn after(self, event: InputEvent) -> KeyBinding {
        match event {
            InputEvent::Key { key, pressed } if key == self.key => KeyBinding { key, pressed },
            _ => self,
        }
    }

    fn event(&mut self, event: &InputEvent) -> (state: Option<InputState>)
        ensures
            *final(self) == old(self).after(*event),
            state == if old(self).hears(*event) {
                Some(InputState::Button(final(self).pressed))
            } else {
                None
            },
    {
        match *event {
            InputEvent::Key { key, pressed } => {
                if key == self.key {
                    self.pressed = pressed;
                    return Some(InputState::Button(pressed));
                }
            },
            _ => {},
        }
        None
    }
}

/// An axis bound to two keys: one pushes it up, the other down.
#[derive(Clone, Copy, PartialEq, Eq, Debug, Structural)]
pub struct KeyAxis1Binding {
    pub up: KeyBinding,
    pub down: KeyBinding,
}

impl KeyAxis1Binding {
    pub fn new(up: KeyCode, down: KeyCode) -> (binding: KeyAxis1Binding)
        ensures
            binding == (KeyAxis1Binding {
                up: KeyBinding { key: up, pressed: false },
                down: KeyBinding { key: down, pressed: false },
            }),
    {
        KeyAxis1Binding { up: KeyBinding::new(up), down: KeyBinding::new(down) }
    }

    pub open spec fn hears(self, event: InputEvent) -> bool {
        self.up.hears(event) || self.down.hears(event)
    }

    pub open spec fn after(self, event: InputEvent) -> KeyAxis1Binding {
        KeyAxis1Binding { up: self.up.after(event), down: self.down.after(event) }
    }

    /// Where the axis stands: one for each pressed key, up less down.
    pub open spec fn position(self) -> i32 {
        ((if self.up.pressed {
            AXIS_ONE as int
        } else {
            0
        }) - (if self.down.pressed {
            AXIS_ONE as int
        } else {
            0
        })) as i32
    }

    fn event(&mut self, event: &InputEvent) -> (state: Option<InputState>)
        ensures
            *final(self) == old(self).after(*event),
            state == if old(self).hears(*event) {
                Some(InputState::Axis1(final(self).position()))
            } else {
                None
            },
    {
        let up = self.up.event(event);
        let down = self.down.event(event);
        if up.is_some() || down.is_some() {
            Some(self.state())
        } else {
            None
        }
    }

    fn state(&self) -> (state: InputState)
        ensures
            state == InputState::Axis1(self.position()),
    {
        let mut x: i32 = 0;
        if self.up.pressed {
            x = x + AXIS_ONE;
        }
        if self.down.pressed {
            x = x - AXIS_ONE;
        }
        InputState::Axis1(x)
    }
}

/// Two axes bound to four keys.
#[derive(Clone, Copy, PartialEq, Eq, Debug, Structural)]
pub struct KeyAxis2Binding {
    pub up: KeyBinding,
    pub down: KeyBinding,
    pub left: KeyBinding,
    pub right: KeyBinding,
}

impl KeyAxis2Binding {
    pub fn new(up: KeyCode, down: KeyCode, left: KeyCode, right: KeyCode) -> (binding:
        KeyAxis2Binding)
        ensures
            binding == (KeyAxis2Binding {
                up: KeyBinding { key: up, pressed: false },
                down: KeyBinding { key: down, pressed: false },
                left: KeyBinding { key: left, pressed: false },
                right: KeyBinding { key: right, pressed: false },
            }),
    {
        KeyAxis2Binding {
            up: KeyBinding::new(up),
            down: KeyBinding::new(down),
            left: KeyBinding::new(left),
            right: KeyBinding::new(right),
        }
    }

    pub open spec fn hears(self, event: InputEvent) -> bool {
        self.up.hears(event) || self.down.hears(event) || self.left.hears(event)
            || self.right.hears(event)
    }

    pub open spec fn after(self, event: InputEvent) -> KeyAxis2Binding {
        KeyAxis2Binding {
            up: self.up.after(event),
            down: self.down.after(event),
            left: self.left.after(event),
            right: self.right.after(event),
        }
    }

    /// Where the axes stand: right less left, and up less down.
    pub open spec fn position(self) -> Vec2 {
        Vec2 {
            x: ((if self.right.pressed {
                AXIS_ONE as int
            } else {
                0
            }) - (if self.left.pressed {
                AXIS_ONE as int
            } else {
                0
            })) as i32,
            y: ((if self.up.pressed {
                AXIS_ONE as int
            } else {
                0
            }) - (if self.down.pressed {
                AXIS_ONE as int
            } else {
                0
            })) as i32,
        }
    }

    fn event(&mut self, event: &InputEvent) -> (state: Option<InputState>)
        ensures
            *final(self) == old(self).after(*event),
            state == if old(self).hears(*event) {
                Some(InputState::Axis2(final(self).position()))
            } else {
                None
            },
    {
        let up = self.up.event(event);
        let down = self.down.event(event);
        let left = self.left.event(event);
        let right = self.right.event(event);
        if up.is_some() || down.is_some() || left.is_some() || right.is_some() {
            Some(self.state())
        } else {
            None
        }
    }

    fn state(&self) -> (state: InputState)
        ensures
            state == InputState::Axis2(self.position()),
    {
        let mut x: i32 = 0;
        let mut y: i32 = 0;
        if self.up.pressed {
            y = y + AXIS_ONE;
        }
        if self.down.pressed {
            y = y - AXIS_ONE;
        }
        if self.left.pressed {
            x = x - AXIS_ONE;
        }
        if self.right.pressed {
            x = x + AXIS_ONE;
        }
        InputState::Axis2(Vec2 { x, y })
    }
}

/// An action bound to a mouse button.
#[derive(Clone, Copy, PartialEq, Eq, Debug, Structural)]
pub struct MouseButtonBinding {
    pub button: MouseButton,
    pub pressed: bool,
}

impl MouseButtonBinding {
    pub fn new(button: MouseButton) -> (binding: MouseButtonBinding)
        ensures
            binding == (MouseButtonBinding { button, pressed: false }),
    {
        MouseButtonBinding { button, pressed: false }
    }

    pub open spec fn hears(self, event: InputEvent) -> bool {
        event matches InputEvent::MouseButton { button, .. } && button == self.button
    }

    pub open spec fn after(self, event: InputEvent) -> MouseButtonBinding {
        match event {
            InputEvent::MouseButton { button, pressed } if button == self.button => MouseButtonBinding {
                button,
                pressed,
            },
            _ => self,
        }
    }

    fn event(&mut self, event: &InputEvent) -> (state: Option<InputState>)
        ensures
            *final(self) == old(self).after(*event),
            state == if old(self).hears(*event) {
                Some(InputState::Button(final(self).pressed))
            } else {
                None
            },
    {
        match *event {
            InputEvent::MouseButton { button, pressed } => {
                if button == self.button {
                    self.pressed = pressed;
                    return Some(InputState::Button(pressed));
                }
            },
            _ => {},
        }
        None
    }
}

/// A length times a sensitivity, rounded down.
pub open spec fn sensed(delta: int, sensitivity: int) -> int {
    (delta * sensitivity) / 0x1_0000
}

fn sense(delta: i32, sensitivity: i32) -> (moved: i32)
    ensures
        moved == sat(sensed(delta as int, sensitivity as int)),
{
    assert(-0x4000_0000_0000_0000 <= (delta as int) * (sensitivity as int) <= 0x4000_0000_0000_0000)
        by (nonlinear_arith)
        requires
            -0x8000_0000 <= delta <= 0x7fff_ffff,
            -0x8000_0000 <= sensitivity <= 0x7fff_ffff,
    ;
    let product: i64 = (delta as i64) * (sensitivity as i64);
    if product >= 0 {
        saturate(product / 0x1_0000)
    } else {
        let up: i64 = -(product + 1);
        saturate(-(up / 0x1_0000) - 1)
    }
}

/// Two axes bound to the motion of the mouse. The motion adds up over a
/// frame and starts from zero in the next.
#[derive(Clone, Copy, PartialEq, Eq, Debug, Structural)]
pub struct MouseMotionBinding {
    /// In parts of [`SENSITIVITY_ONE`].
    pub sensitivity: i32,
    pub motion: Vec2,
}

impl MouseMotionBinding {
    pub fn new(sensitivity: i32) -> (binding: MouseMotionBinding)
        ensures
            binding == (MouseMotionBinding { sensitivity, motion: Vec2 { x: 0, y: 0 } }),
    {
        MouseMotionBinding { sensitivity, motion: Vec2 { x: 0, y: 0 } }
    }

    pub open spec fn hears(self, event: InputEvent) -> bool {
        event is RawMouseMotion
    }

    pub open spec fn after(self, event: InputEvent) -> MouseMotionBinding {
        match event {
            InputEvent::RawMouseMotion { delta } => MouseMotionBinding {
                sensitivity: self.sensitivity,
                motion: Vec2 {
                    x: sat(
                        self.motion.x + sat(sensed(delta.x as int, self.sensitivity as int)),
                    ) as i32,
                    y: sat(
                        self.motion.y + sat(sensed(delta.y as int, self.sensitivity as int)),
                    ) as i32,
                },
            },
            _ => self,
        }
    }

    fn event(&mut self, event: &InputEvent) -> (state: Option<InputState>)
        ensures
            *final(self) == old(self).after(*event),
            state == if old(self).hears(*event) {
                Some(InputState::Axis2(final(self).motion))
            } else {
                None
            },
    {
        match *event {
            InputEvent::RawMouseMotion { delta } => {
                self.motion = Vec2 {
                    x: sat_add(self.motion.x, sense(delta.x, self.sensitivity)),
                    y: sat_add(self.motion.y, sense(delta.y, self.sensitivity)),
                };
                Some(InputState::Axis2(self.motion))
            },
            _ => None,
        }
    }

    fn end_frame(&mut self) -> (state: InputState)
        ensures
            *final(self) == (MouseMotionBinding { motion: Vec2 { x: 0, y: 0 }, ..*old(self) }),
            state == InputState::Axis2(Vec2 { x: 0, y: 0 }),
    {
        self.motion = Vec2 { x: 0, y: 0 };
        InputState::Axis2(self.motion)
    }
}

/// What an action is bound to.
#[derive(Clone, Copy, PartialEq, Eq, Debug, Structural)]
pub enum Binding {
    Key(KeyBinding),
    KeyAxis1(KeyAxis1Binding),
    KeyAxis2(KeyAxis2Binding),
    MouseButton(MouseButtonBinding),
    MouseMotion(MouseMotionBinding),
}

impl Binding {
    /// Whether the event changes what the binding says.
    pub open spec fn hears(self, event: InputEvent) -> bool {
        match self {
            Binding::Key(binding) => binding.hears(event),
            Binding::KeyAxis1(binding) => binding.hears(event),
            Binding::KeyAxis2(binding) => binding.hears(event),
            Binding::MouseButton(binding) => binding.hears(event),
            Binding::MouseMotion(binding) => binding.hears(event),
        }
    }

    /// The binding after the event.
    pub open spec fn after(self, event: InputEvent) -> Binding {
        match self {
            Binding::Key(binding) => Binding::Key(binding.after(event)),
            Binding::KeyAxis1(binding) => Binding::KeyAxis1(binding.after(event)),
            Binding::KeyAxis2(binding) => Binding::KeyAxis2(binding.after(event)),
            Binding::MouseButton(binding) => Binding::MouseButton(binding.after(event)),
            Binding::MouseMotion(binding) => Binding::MouseMotion(binding.after(event)),
        }
    }

    /// What the binding says.
    pub open spec fn state(self) -> InputState {
        match self {
            Binding::Key(binding) => InputState::Button(binding.pressed),
            Binding::KeyAxis1(binding) => InputState::Axis1(binding.position()),
            Binding::KeyAxis2(binding) => InputState::Axis2(binding.position()),
            Binding::MouseButton(binding) => InputState::Button(binding.pressed),
            Binding::MouseMotion(binding) => InputState::Axis2(binding.motion),
        }
    }

    /// The binding at the start of the next frame.
    pub open spec fn rested(self) -> Binding {
        match self {
            Binding::MouseMotion(binding) => Binding::MouseMotion(
                MouseMotionBinding { motion: Vec2 { x: 0, y: 0 }, ..binding },
            ),
            _ => self,
        }
    }

    fn event(&mut self, event: &InputEvent) -> (state: Option<InputState>)
        ensures
            *final(self) == old(self).after(*event),
            state == if old(self).hears(*event) {
                Some(final(self).state())
            } else {
                None
            },
    {
        match self {
            Binding::Key(binding) => binding.event(event),
            Binding::KeyAxis1(binding) => binding.event(event),
            Binding::KeyAxis2(binding) => binding.event(event),
            Binding::MouseButton(binding) => binding.event(event),
            Binding::MouseMotion(binding) => binding.event(event),
        }
    }
}

/// The state of an action, and whether it has changed in this frame.
#[derive(Clone, Copy, PartialEq, Eq, Debug, Structural)]
pub struct ActionState {
    pub changed: bool,
    pub state: InputState,
}

impl Default for ActionState {
    fn default() -> (action: ActionState)
        ensures
            action == (ActionState { changed: false, state: InputState::Unset }),
    {
        ActionState { changed: false, state: InputState::Unset }
    }
}

impl ActionState {
    /// The action after its binding said `state`.
    pub open spec fn heard(self, state: InputState) -> ActionState {
        if self.state != state {
            ActionState { changed: true, state }
        } else {
            self
        }
    }

    pub fn changed(&self) -> (changed: bool)
        ensures
            changed == self.changed,
    {
        self.changed
    }

    pub fn button_state(&self) -> (pressed: bool)
        ensures
            pressed == self.state.button(),
    {
        self.state.as_button()
    }

    pub fn axis1_state(&self) -> (v: i32)
        ensures
            v == self.state.axis1(),
    {
        self.state.as_axis1()
    }

    pub fn axis2_state(&self) -> (v: Vec2)
        ensures
            v == self.state.axis2(),
    {
        self.state.as_axis2()
    }

    pub fn pressed(&self) -> (pressed: bool)
        ensures
            pressed == self.state.button(),
    {
        self.button_state()
    }

    pub fn released(&self) -> (released: bool)
        ensures
            released == !self.state.button(),
    {
        !self.button_state()
    }

    pub fn just_pressed(&self) -> (pressed: bool)
        ensures
            pressed == (self.state.button() && self.changed),
    {
        self.pressed() && self.changed
    }

    pub fn just_released(&self) -> (released: bool)
        ensures
            released == (!self.state.button() && self.changed),
    {
        self.released() && self.changed
    }
}

/// An action by name, with its binding and its state.
#[derive(Clone, PartialEq, Eq, Debug)]
pub struct Action {
    pub name: String,
    pub binding: Binding,
    pub state: ActionState,
}

/// Where `name` stands among the first `upto` actions.
pub open spec fn named(actions: Seq<Action>, name: Seq<char>, upto: int) -> Option<int>
    decreases upto,
{
    if upto <= 0 {
        None
    } else if actions[upto - 1].name@ == name {
        Some(upto - 1)
    } else {
        named(actions, name, upto - 1)
    }
}

/// No two actions have the same name.
pub open spec fn distinct(actions: Seq<Action>) -> bool {
    forall|i: int, j: int|
        0 <= i < actions.len() && 0 <= j < actions.len() && i != j ==> (#[trigger] actions[i]).name@
            != (#[trigger] actions[j]).name@
}

/// The actions with one of them bound anew: an action of that name gets the
/// binding, else the action is added at the end.
pub open spec fn bound(actions: Seq<Action>, name: String, binding: Binding) -> Seq<Action> {
    let action = Action { name, binding, state: ActionState { changed: false, state: InputState::Unset } };
    match named(actions, name@, actions.len() as int) {
        Some(at) => actions.update(at, Action { name: actions[at].name, ..action }),
        None => actions.push(action),
    }
}

proof fn lemma_named(actions: Seq<Action>, name: Seq<char>, upto: int)
    requires
        0 <= upto <= actions.len(),
    ensures
        match named(actions, name, upto) {
            Some(at) => 0 <= at < upto && actions[at].name@ == name,
            None => forall|i: int| 0 <= i < upto ==> (#[trigger] actions[i]).name@ != name,
        },
    decreases upto,
{
    if upto > 0 {
        lemma_named(actions, name, upto - 1);
    }
}

fn find(actions: &Vec<Action>, name: &String) -> (found: Option<usize>)
    ensures
        match found {
            Some(at) => named(actions@, name@, actions@.len() as int) == Some(at as int) && at
                < actions@.len(),
            None => named(actions@, name@, actions@.len() as int) is None,
        },
{
    let mut i = actions.len();
    while i > 0
        invariant
            i <= actions@.len(),
            named(actions@, name@, actions@.len() as int) == named(actions@, name@, i as int),
        decreases i,
    {
        i = i - 1;
        if actions[i].name == *name {
            return Some(i);
        }
    }
    None
}

/// Bindings by the name of their action.
#[derive(Clone, PartialEq, Eq, Debug)]
pub struct InputBindings {
    pub actions: Vec<Action>,
}

impl InputBindings {
    pub open spec fn wf(&self) -> bool {
        distinct(self.actions@)
    }

    pub fn new() -> (bindings: InputBindings)
        ensures
            bindings.wf(),
            bindings.actions@ == Seq::<Action>::empty(),
    {
        InputBindings { actions: Vec::new() }
    }

    pub fn len(&self) -> (len: usize)
        ensures
            len == self.actions@.len(),
    {
        self.actions.len()
    }

    pub fn is_empty(&self) -> (empty: bool)
        ensures
            empty == (self.actions@.len() == 0),
    {
        self.len() == 0
    }

    fn bind(&mut self, key: &str, binding: Binding)
        requires
            old(self).wf(),
        ensures
            final(self).wf(),
            exists|name: String|
                name@ == key@ && final(self).actions@ == bound(old(self).actions@, name, binding),
    {
        let name = String::from_str(key);
        let action = Action { name: name.clone(), binding, state: ActionState::default() };
        proof {
            lemma_named(self.actions@, name@, self.actions@.len() as int);
        }
        match find(&self.actions, &name) {
            Some(at) => {
                let ghost kept = self.actions@[at as int].name;
                self.actions[at].binding = binding;
                self.actions[at].state = ActionState::default();
                proof {
                    assert(self.actions@ =~= bound(old(self).actions@, name, binding));
                    assert forall|i: int, j: int|
                        0 <= i < self.actions@.len() && 0 <= j < self.actions@.len() && i
                            != j implies (#[trigger] self.actions@[i]).name@
                        != (#[trigger] self.actions@[j]).name@ by {
                        assert(self.actions@[i].name@ == old(self).actions@[i].name@);
                        assert(self.actions@[j].name@ == old(self).actions@[j].name@);
                    }
                }
            },
            None => {
                self.actions.push(action);
                proof {
                    assert(self.actions@ =~= bound(old(self).actions@, name, binding));
                    assert forall|i: int, j: int|
                        0 <= i < self.actions@.len() && 0 <= j < self.actions@.len() && i
                            != j implies (#[trigger] self.actions@[i]).name@
                        != (#[trigger] self.actions@[j]).name@ by {
                        if i < old(self).actions@.len() {
                            assert(self.actions@[i] == old(self).actions@[i]);
                        }
                        if j < old(self).actions@.len() {
                            assert(self.actions@[j] == old(self).actions@[j]);
                        }
                    }
                }
            },
        }
    }

    pub fn add_key(&mut self, key: &str, binding: KeyBinding)
        requires
            old(self).wf(),
        ensures
            final(self).wf(),
            exists|name: String|
                name@ == key@ && final(self).actions@ == bound(
                    old(self).actions@,
                    name,
                    Binding::Key(binding),
                ),
    {
        self.bind(key, Binding::Key(binding));
    }

    pub fn add_key_axis1(&mut self, key: &str, binding: KeyAxis1Binding)
        requires
            old(self).wf(),
        ensures
            final(self).wf(),
            exists|name: String|
                name@ == key@ && final(self).actions@ == bound(
                    old(self).actions@,
                    name,
                    Binding::KeyAxis1(binding),
                ),
    {
        self.bind(key, Binding::KeyAxis1(binding));
    }

    pub fn add_key_axis2(&mut self, key: &str, binding: KeyAxis2Binding)
        requires
            old(self).wf(),
        ensures
            final(self).wf(),
            exists|name: String|
                name@ == key@ && final(self).actions@ == bound(
                    old(self).actions@,
                    name,
                    Binding::KeyAxis2(binding),
                ),
    {
        self.bind(key, Binding::KeyAxis2(binding));
    }

    pub fn add_mouse_button(&mut self, key: &str, binding: MouseButtonBinding)
        requires
            old(self).wf(),
        ensures
            final(self).wf(),
            exists|name: String|
                name@ == key@ && final(self).actions@ == bound(
                    old(self).actions@,
                    name,
                    Binding::MouseButton(binding),
                ),
    {
        self.bind(key, Binding::MouseButton(binding));
    }

    pub fn add_mouse_motion(&mut self, key: &str, binding: MouseMotionBinding)
        requires
            old(self).wf(),
        ensures
            final(self).wf(),
            exists|name: String|
                name@ == key@ && final(self).actions@ == bound(
                    old(self).actions@,
                    name,
                    Binding::MouseMotion(binding),
                ),
    {
        self.bind(key, Binding::MouseMotion(binding));
    }

    /// The bindings of a game that has none of its own: the two mouse
    /// buttons, the mouse to look, escape to leave, and keys to move, jump
    /// and fly.
    pub fn standard() -> (bindings: InputBindings)
        ensures
            bindings.wf(),
            bindings.actions@.len() == 7,
            bindings.actions@[0].name@ == "primary"@,
            bindings.actions@[0].binding == Binding::MouseButton(
                MouseButtonBinding { button: MouseButton::Left, pressed: false },
            ),
            bindings.actions@[1].name@ == "secondary"@,
            bindings.actions@[1].binding == Binding::MouseButton(
                MouseButtonBinding { button: MouseButton::Right, pressed: false },
            ),
            bindings.actions@[2].name@ == "look"@,
            bindings.actions@[2].binding == Binding::MouseMotion(
                MouseMotionBinding { sensitivity: 655, motion: Vec2 { x: 0, y: 0 } },
            ),
            bindings.actions@[3].name@ == "exit"@,
            bindings.actions@[3].binding == Binding::Key(
                KeyBinding { key: KEY_ESCAPE, pressed: false },
            ),
            bindings.actions@[4].name@ == "move"@,
            bindings.actions@[4].binding == Binding::KeyAxis2(
                KeyAxis2Binding {
                    up: KeyBinding { key: KEY_W, pressed: false },
                    down: KeyBinding { key: KEY_S, pressed: false },
                    left: KeyBinding { key: KEY_A, pressed: false },
                    right: KeyBinding { key: KEY_D, pressed: false },
                },
            ),
            bindings.actions@[5].name@ == "jump"@,
            bindings.actions@[5].binding == Binding::Key(
                KeyBinding { key: KEY_SPACE, pressed: false },
            ),
            bindings.actions@[6].name@ == "fly"@,
            bindings.actions@[6].binding == Binding::KeyAxis1(
                KeyAxis1Binding {
                    up: KeyBinding { key: KEY_SPACE, pressed: false },
                    down: KeyBinding { key: KEY_LEFT_SHIFT, pressed: false },
                },
            ),
    {
        proof {
            reveal_strlit("primary");
            reveal_strlit("secondary");
            reveal_strlit("look");
            reveal_strlit("exit");
            reveal_strlit("move");
            reveal_strlit("jump");
            reveal_strlit("fly");
            assert("primary"@.len() == 7 && "secondary"@.len() == 9 && "fly"@.len() == 3);
            assert("look"@.len() == 4 && "look"@[0] == 'l');
            assert("exit"@.len() == 4 && "exit"@[0] == 'e');
            assert("move"@.len() == 4 && "move"@[0] == 'm');
            assert("jump"@.len() == 4 && "jump"@[0] == 'j');
        }
        let mut bindings = InputBindings::new();
        let ghost a0 = bindings.actions@;
        bindings.add_mouse_button("primary", MouseButtonBinding::new(MouseButton::Left));
        proof {
            lemma_named(a0, "primary"@, a0.len() as int);
        }
        let ghost a1 = bindings.actions@;
        bindings.add_mouse_button("secondary", MouseButtonBinding::new(MouseButton::Right));
        proof {
            lemma_named(a1, "secondary"@, a1.len() as int);
        }
        let ghost a2 = bindings.actions@;
        bindings.add_mouse_motion("look", MouseMotionBinding::new(655));
        proof {
            lemma_named(a2, "look"@, a2.len() as int);
        }
        let ghost a3 = bindings.actions@;
        bindings.add_key("exit", KeyBinding::new(KEY_ESCAPE));
        proof {
            lemma_named(a3, "exit"@, a3.len() as int);
        }
        let ghost a4 = bindings.actions@;
        bindings.add_key_axis2("move", KeyAxis2Binding::new(KEY_W, KEY_S, KEY_A, KEY_D));
        proof {
            lemma_named(a4, "move"@, a4.len() as int);
        }
        let ghost a5 = bindings.actions@;
        bindings.add_key("jump", KeyBinding::new(KEY_SPACE));
        proof {
            lemma_named(a5, "jump"@, a5.len() as int);
        }
        let ghost a6 = bindings.actions@;
        bindings.add_key_axis1("fly", KeyAxis1Binding::new(KEY_SPACE, KEY_LEFT_SHIFT));
        proof {
            lemma_named(a6, "fly"@, a6.len() as int);
        }
        bindings
    }
}

/// The pointer: where it is, and its two buttons.
#[derive(Clone, Copy, PartialEq, Eq, Debug, Structural)]
pub struct PointerState {
    pub position: Vec2,
    pub primary: bool,
    pub secondary: bool,
}

/// The action after the event: its binding hears the event or not.
pub open spec fn action_after(action: Action, event: InputEvent) -> Action {
    Action {
        name: action.name,
        binding: action.binding.after(event),
        state: if action.binding.hears(event) {
            action.state.heard(action.binding.after(event).state())
        } else {
            action.state
        },
    }
}

/// The pointer after the first `upto` actions have heard the event: the
/// actions named `primary` and `secondary` are its buttons.
pub open spec fn pointer_after(actions: Seq<Action>, event: InputEvent, upto: int, pointer: PointerState)
    -> PointerState
    decreases upto,
{
    if upto <= 0 {
        pointer
    } else {
        let before = pointer_after(actions, event, upto - 1, pointer);
        let action = actions[upto - 1];
        if !action.binding.hears(event) {
            before
        } else if action.name@ == "primary"@ {
            PointerState { primary: action.binding.after(event).state().button(), ..before }
        } else if action.name@ == "secondary"@ {
            PointerState { secondary: action.binding.after(event).state().button(), ..before }
        } else {
            before
        }
    }
}

/// The action at the start of the next frame.
pub open spec fn action_rested(action: Action) -> Action {
    Action {
        name: action.name,
        binding: action.binding.rested(),
        state: ActionState {
            changed: false,
            state: if action.binding is MouseMotion {
                InputState::Axis2(Vec2 { x: 0, y: 0 })
            } else {
                action.state.state
            },
        },
    }
}

/// The state of all actions and of the pointer.
#[derive(Clone, PartialEq, Eq, Debug)]
pub struct InputSystem {
    pub bindings: Vec<Action>,
    pub pointer: PointerState,
}

impl InputSystem {
    /// A system in which no action has a state yet.
    pub fn new(bindings: InputBindings) -> (system: InputSystem)
        ensures
            system.bindings@.len() == bindings.actions@.len(),
            forall|i: int|
                0 <= i < system.bindings@.len() ==> #[trigger] system.bindings@[i] == (Action {
                    state: ActionState { changed: false, state: InputState::Unset },
                    ..bindings.actions@[i]
                }),
            system.pointer == (PointerState {
                position: Vec2 { x: 0, y: 0 },
                primary: false,
                secondary: false,
            }),
    {
        let mut actions = bindings.actions;
        let mut i: usize = 0;
        while i < actions.len()
            invariant
                i <= actions@.len(),
                actions@.len() == bindings.actions@.len(),
                forall|j: int|
                    0 <= j < i ==> #[trigger] actions@[j] == (Action {
                        state: ActionState { changed: false, state: InputState::Unset },
                        ..bindings.actions@[j]
                    }),
                forall|j: int| i <= j < actions@.len() ==> #[trigger] actions@[j] == bindings.actions@[j],
            decreases actions@.len() - i,
        {
            actions[i].state = ActionState::default();
            i = i + 1;
        }
        InputSystem {
            bindings: actions,
            pointer: PointerState {
                position: Vec2 { x: 0, y: 0 },
                primary: false,
                secondary: false,
            },
        }
    }

    /// The state of the action of that name, if there is one.
    pub fn try_get(&self, key: &str) -> (state: Option<&ActionState>)
        ensures
            match named(self.bindings@, key@, self.bindings@.len() as int) {
                Some(at) => state == Some(&self.bindings@[at].state),
                None => state is None,
            },
    {
        let name = String::from_str(key);
        match find(&self.bindings, &name) {
            Some(at) => Some(&self.bindings[at].state),
            None => None,
        }
    }

    /// The state of the action of that name; an action that is not bound
    /// has no state and has not changed.
    pub fn get(&self, key: &str) -> (state: ActionState)
        ensures
            match named(self.bindings@, key@, self.bindings@.len() as int) {
                Some(at) => state == self.bindings@[at].state,
                None => state == (ActionState { changed: false, state: InputState::Unset }),
            },
    {
        match self.try_get(key) {
            Some(state) => *state,
            None => ActionState::default(),
        }
    }

    pub fn pointer(&self) -> (pointer: &PointerState)
        ensures
            *pointer == self.pointer,
    {
        &self.pointer
    }

    /// Starts the next frame: nothing has changed yet, and the motion of
    /// the mouse starts from zero.
    pub fn end_frame(&mut self)
        ensures
            final(self).pointer == old(self).pointer,
            final(self).bindings@.len() == old(self).bindings@.len(),
            forall|i: int|
                0 <= i < old(self).bindings@.len() ==> #[trigger] final(self).bindings@[i]
                    == action_rested(old(self).bindings@[i]),
    {
        let mut i: usize = 0;
        while i < self.bindings.len()
            invariant
                i <= self.bindings@.len(),
                self.pointer == old(self).pointer,
                self.bindings@.len() == old(self).bindings@.len(),
                forall|j: int|
                    0 <= j < i ==> #[trigger] self.bindings@[j] == action_rested(
                        old(self).bindings@[j],
                    ),
                forall|j: int|
                    i <= j < self.bindings@.len() ==> #[trigger] self.bindings@[j] == old(
                        self,
                    ).bindings@[j],
            decreases self.bindings@.len() - i,
        {
            self.bindings[i].state.changed = false;
            let rested = match self.bindings[i].binding {
                Binding::MouseMotion(motion) => {
                    let mut motion = motion;
                    let state = motion.end_frame();
                    Some((Binding::MouseMotion(motion), state))
                },
                _ => None,
            };
            if let Some((binding, state)) = rested {
                self.bindings[i].binding = binding;
                self.bindings[i].state.state = state;
            }
            i = i + 1;
        }
    }

    /// Takes an event. The position of the pointer follows its motion; any
    /// other event goes to every binding, and an action whose binding says
    /// something new has changed.
    pub fn handle_event(&mut self, event: InputEvent)
        ensures
            event matches InputEvent::MouseMotion { position } ==> {
                &&& final(self).bindings == old(self).bindings
                &&& final(self).pointer == (PointerState { position, ..old(self).pointer })
            },
            !(event is MouseMotion) ==> {
                &&& final(self).bindings@.len() == old(self).bindings@.len()
                &&& forall|i: int|
                    0 <= i < old(self).bindings@.len() ==> #[trigger] final(self).bindings@[i]
                        == action_after(old(self).bindings@[i], event)
                &&& final(self).pointer == pointer_after(
                    old(self).bindings@,
                    event,
                    old(self).bindings@.len() as int,
                    old(self).pointer,
                )
            },
    {
        match event {
            InputEvent::MouseMotion { position } => {
                self.pointer.position = position;
                return ;
            },
            _ => {},
        }
        let primary = String::from_str("primary");
        let secondary = String::from_str("secondary");
        let mut i: usize = 0;
        while i < self.bindings.len()
            invariant
                i <= self.bindings@.len(),
                !(event is MouseMotion),
                primary@ == "primary"@,
                secondary@ == "secondary"@,
                self.bindings@.len() == old(self).bindings@.len(),
                forall|j: int|
                    0 <= j < i ==> #[trigger] self.bindings@[j] == action_after(
                        old(self).bindings@[j],
                        event,
                    ),
                forall|j: int|
                    i <= j < self.bindings@.len() ==> #[trigger] self.bindings@[j] == old(
                        self,
                    ).bindings@[j],
                self.pointer == pointer_after(old(self).bindings@, event, i as int, old(self).pointer),
            decreases self.bindings@.len() - i,
        {
            let mut binding = self.bindings[i].binding;
            let heard = binding.event(&event);
            self.bindings[i].binding = binding;
            if let Some(state) = heard {
                if self.bindings[i].state.state != state {
                    self.bindings[i].state.state = state;
                    self.bindings[i].state.changed = true;
                }
                if self.bindings[i].name == primary {
                    self.pointer.primary = state.as_button();
                } else if self.bindings[i].name == secondary {
                    self.pointer.secondary = state.as_button();
                }
            }
            i = i + 1;
        }
    }
}

} // verus!
