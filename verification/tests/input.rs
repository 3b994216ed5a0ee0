use gristmill::input::{
    ActionState, Binding, InputBindings, InputEvent, InputState, InputSystem, KeyAxis1Binding,
    KeyAxis2Binding, KeyBinding, MouseButton, MouseButtonBinding, MouseMotionBinding,
    PointerState, KEY_A, KEY_D, KEY_ESCAPE, KEY_LEFT_SHIFT, KEY_S, KEY_SPACE, KEY_W,
};
use gristmill::two::Vec2;

fn key(key: u16, pressed: bool) -> InputEvent {
    InputEvent::Key { key, pressed }
}

fn button(button: MouseButton, pressed: bool) -> InputEvent {
    InputEvent::MouseButton { button, pressed }
}

fn system() -> InputSystem {
    InputSystem::new(InputBindings::standard())
}

#[test]
fn new_bindings_are_released() {
    assert_eq!(KeyBinding::new(KEY_W), KeyBinding { key: KEY_W, pressed: false });
    assert_eq!(
        MouseButtonBinding::new(MouseButton::Middle),
        MouseButtonBinding { button: MouseButton::Middle, pressed: false }
    );
    assert_eq!(KeyAxis1Binding::new(KEY_W, KEY_S).up, KeyBinding::new(KEY_W));
    assert_eq!(KeyAxis1Binding::new(KEY_W, KEY_S).down, KeyBinding::new(KEY_S));
    let axes = KeyAxis2Binding::new(KEY_W, KEY_S, KEY_A, KEY_D);
    assert_eq!(
        (axes.up.key, axes.down.key, axes.left.key, axes.right.key),
        (KEY_W, KEY_S, KEY_A, KEY_D)
    );
    assert_eq!(
        MouseMotionBinding::new(655),
        MouseMotionBinding { sensitivity: 655, motion: Vec2::new(0, 0) }
    );
}

#[test]
fn bindings_are_kept_by_name() {
    let mut bindings = InputBindings::new();
    assert!(bindings.is_empty());
    bindings.add_key("jump", KeyBinding::new(KEY_SPACE));
    bindings.add_key_axis1("fly", KeyAxis1Binding::new(KEY_SPACE, KEY_LEFT_SHIFT));
    bindings.add_key_axis2("move", KeyAxis2Binding::new(KEY_W, KEY_S, KEY_A, KEY_D));
    bindings.add_mouse_button("primary", MouseButtonBinding::new(MouseButton::Left));
    bindings.add_mouse_motion("look", MouseMotionBinding::new(655));
    assert_eq!(bindings.len(), 5);
    assert!(!bindings.is_empty());
    bindings.add_key("jump", KeyBinding::new(KEY_W));
    assert_eq!(bindings.len(), 5);
    assert_eq!(bindings.actions[0].name, "jump");
    assert_eq!(bindings.actions[0].binding, Binding::Key(KeyBinding::new(KEY_W)));
    assert_eq!(bindings.actions[4].name, "look");
}

#[test]
fn standard_bindings() {
    let bindings = InputBindings::standard();
    let names: Vec<&str> = bindings.actions.iter().map(|action| action.name.as_str()).collect();
    assert_eq!(names, vec!["primary", "secondary", "look", "exit", "move", "jump", "fly"]);
    assert_eq!(
        bindings.actions[0].binding,
        Binding::MouseButton(MouseButtonBinding::new(MouseButton::Left))
    );
    assert_eq!(
        bindings.actions[1].binding,
        Binding::MouseButton(MouseButtonBinding::new(MouseButton::Right))
    );
    assert_eq!(bindings.actions[2].binding, Binding::MouseMotion(MouseMotionBinding::new(655)));
    assert_eq!(bindings.actions[3].binding, Binding::Key(KeyBinding::new(KEY_ESCAPE)));
    assert_eq!(
        bindings.actions[4].binding,
        Binding::KeyAxis2(KeyAxis2Binding::new(KEY_W, KEY_S, KEY_A, KEY_D))
    );
    assert_eq!(bindings.actions[5].binding, Binding::Key(KeyBinding::new(KEY_SPACE)));
    assert_eq!(
        bindings.actions[6].binding,
        Binding::KeyAxis1(KeyAxis1Binding::new(KEY_SPACE, KEY_LEFT_SHIFT))
    );
}

#[test]
fn new_system_has_heard_nothing() {
    let system = system();
    assert_eq!(system.get("jump"), ActionState::default());
    assert_eq!(system.get("jump").state, InputState::Unset);
    assert!(!system.get("jump").pressed());
    assert!(system.get("jump").released());
    assert_eq!(system.get("fly").axis1_state(), 0);
    assert_eq!(system.get("move").axis2_state(), Vec2::new(0, 0));
    assert_eq!(
        *system.pointer(),
        PointerState { position: Vec2::new(0, 0), primary: false, secondary: false }
    );
}

#[test]
fn unbound_action_is_unset() {
    let system = system();
    assert_eq!(system.try_get("dance"), None);
    assert_eq!(system.get("dance"), ActionState { changed: false, state: InputState::Unset });
    assert!(system.try_get("jump").is_some());
}

#[test]
fn key_press_changes_its_actions() {
    let mut system = system();
    system.handle_event(key(KEY_SPACE, true));
    assert!(system.get("jump").pressed());
    assert!(system.get("jump").just_pressed());
    assert!(!system.get("jump").just_released());
    assert_eq!(system.get("fly").axis1_state(), 64);
    assert!(system.get("fly").pressed());
    assert!(!system.get("exit").changed());
    system.end_frame();
    assert!(system.get("jump").pressed());
    assert!(!system.get("jump").just_pressed());
    system.handle_event(key(KEY_SPACE, true));
    assert!(!system.get("jump").changed());
    system.handle_event(key(KEY_SPACE, false));
    assert!(system.get("jump").released());
    assert!(system.get("jump").just_released());
    assert_eq!(system.get("fly").axis1_state(), 0);
}

#[test]
fn opposite_keys_cancel() {
    let mut system = system();
    system.handle_event(key(KEY_SPACE, true));
    system.handle_event(key(KEY_LEFT_SHIFT, true));
    assert_eq!(system.get("fly").state, InputState::Axis1(0));
    assert!(!system.get("fly").pressed());
    system.handle_event(key(KEY_SPACE, false));
    assert_eq!(system.get("fly").axis1_state(), -64);
    assert!(system.get("fly").pressed());
    assert_eq!(system.get("fly").axis2_state(), Vec2::new(-64, 0));
}

#[test]
fn four_keys_make_two_axes() {
    let mut system = system();
    system.handle_event(key(KEY_W, true));
    assert_eq!(system.get("move").axis2_state(), Vec2::new(0, 64));
    system.handle_event(key(KEY_D, true));
    assert_eq!(system.get("move").axis2_state(), Vec2::new(64, 64));
    system.handle_event(key(KEY_W, false));
    system.handle_event(key(KEY_S, true));
    system.handle_event(key(KEY_D, false));
    system.handle_event(key(KEY_A, true));
    assert_eq!(system.get("move").axis2_state(), Vec2::new(-64, -64));
    assert!(!system.get("move").button_state());
    assert_eq!(system.get("move").axis1_state(), 0);
}

#[test]
fn mouse_buttons_are_the_pointer_buttons() {
    let mut system = system();
    system.handle_event(button(MouseButton::Left, true));
    assert!(system.pointer().primary);
    assert!(!system.pointer().secondary);
    assert!(system.get("primary").just_pressed());
    assert_eq!(system.get("primary").axis1_state(), 64);
    assert_eq!(system.get("primary").axis2_state(), Vec2::new(0, 0));
    system.handle_event(button(MouseButton::Right, true));
    system.handle_event(button(MouseButton::Left, false));
    assert!(!system.pointer().primary);
    assert!(system.pointer().secondary);
    system.handle_event(button(MouseButton::Middle, true));
    assert!(system.pointer().secondary);
}

#[test]
fn pointer_follows_the_mouse() {
    let mut system = system();
    system.handle_event(InputEvent::MouseMotion { position: Vec2::new(640, 1280) });
    assert_eq!(system.pointer().position, Vec2::new(640, 1280));
    assert!(!system.get("look").changed());
}

#[test]
fn mouse_motion_adds_up_over_a_frame() {
    let mut system = system();
    system.handle_event(InputEvent::RawMouseMotion { delta: Vec2::new(6400, -6400) });
    assert_eq!(system.get("look").axis2_state(), Vec2::new(63, -64));
    assert!(system.get("look").changed());
    system.handle_event(InputEvent::RawMouseMotion { delta: Vec2::new(6400, 0) });
    assert_eq!(system.get("look").axis2_state(), Vec2::new(126, -64));
    system.end_frame();
    assert_eq!(system.get("look").axis2_state(), Vec2::new(0, 0));
    assert!(!system.get("look").changed());
    system.handle_event(InputEvent::RawMouseMotion { delta: Vec2::new(100, 0) });
    assert_eq!(system.get("look").axis2_state(), Vec2::new(0, 0));
    assert!(!system.get("look").changed());
}

#[test]
fn primary_can_be_bound_to_a_key() {
    let mut bindings = InputBindings::new();
    bindings.add_key("primary", KeyBinding::new(KEY_SPACE));
    bindings.add_key_axis1("secondary", KeyAxis1Binding::new(KEY_W, KEY_S));
    let mut system = InputSystem::new(bindings);
    system.handle_event(key(KEY_SPACE, true));
    system.handle_event(key(KEY_S, true));
    assert!(system.pointer().primary);
    assert!(system.pointer().secondary);
    system.handle_event(key(KEY_W, true));
    assert!(!system.pointer().secondary);
}
