use gristmill::cell::Notice;
use gristmill::color::Color;
use gristmill::gui::PointerState;
use gristmill::render::{
    GuiRenderer, HorizontalAlign, PaintCommand, SimpleColors, VerticalAlign,
};
use gristmill::two::Vec2;
use gristmill::view::button::{Button, ButtonModel, SimpleButtonView};
use gristmill::view::checkbox::{
    Checkbox, CheckboxModel, SimpleCheckboxView, SimpleRockerView,
};
use gristmill::view::label::Label;
use gristmill::view::{Control, Paint};

fn cursor(width: i32, height: i32) -> GuiRenderer {
    let mut renderer = GuiRenderer::new();
    renderer.translate(640, 640);
    renderer.set_size(Vec2::new(width, height));
    renderer
}

fn rects(commands: &[PaintCommand]) -> Vec<(i32, i32, i32, i32, Color)> {
    let mut found = Vec::new();
    for command in commands {
        if let PaintCommand::Rect { position, size, color } = command {
            found.push((position.x, position.y, size.x, size.y, *color));
        }
    }
    found
}

#[test]
fn button_model_defaults() {
    let model = ButtonModel::default();
    assert!(model.enabled);
    assert_eq!(model.state, PointerState::Idle);
    assert_eq!(model.toggle, None);
    assert_eq!(model.label.text, "");
    assert_eq!(model.label.h_align, HorizontalAlign::Left);
    let named = ButtonModel::new("Click Me!");
    assert_eq!(named.label.text, "Click Me!");
    assert_eq!(named.label.h_align, HorizontalAlign::Center);
    assert_eq!(named.label.v_align, VerticalAlign::Center);
    assert_eq!(named.label.font_size, 14 * 64);
}

#[test]
fn button_is_pressed_when_the_pointer_goes_from_over_to_press() {
    let mut button = Button::with_label("Go", SimpleButtonView::default());
    assert_eq!(button.add_pressed_listener(), 0);
    assert_eq!(button.add_pressed_listener(), 1);
    button.handle_pointer(PointerState::Press);
    assert!(button.pressed.pending.is_empty());
    button.handle_pointer(PointerState::Over);
    assert!(button.pressed.pending.is_empty());
    button.handle_pointer(PointerState::Press);
    assert_eq!(
        button.pressed.take(),
        vec![Notice { listener: 0, param: () }, Notice { listener: 1, param: () }]
    );
    assert_eq!(button.model.state, PointerState::Press);
    button.handle_pointer(PointerState::Press);
    button.handle_pointer(PointerState::Over);
    button.handle_pointer(PointerState::Idle);
    button.handle_pointer(PointerState::Press);
    assert!(button.pressed.pending.is_empty());
    assert_eq!(button.model.toggle, None);
}

#[test]
fn disabled_button_is_not_pressed() {
    let mut button = Button::with_label("Go", SimpleButtonView::default());
    button.add_pressed_listener();
    assert!(button.enabled());
    button.set_enabled(false);
    assert!(!button.enabled());
    button.pointer(PointerState::Over);
    button.pointer(PointerState::Press);
    assert!(button.pressed.pending.is_empty());
    assert_eq!(button.model.state, PointerState::Press);
}

#[test]
fn toggle_button_flips_when_it_is_pressed() {
    let mut model = ButtonModel::new("Mute");
    model.toggle = Some(false);
    let mut button = Button::new(model, SimpleButtonView::default());
    button.pointer(PointerState::Over);
    button.pointer(PointerState::Press);
    assert_eq!(button.model.toggle, Some(true));
    button.pointer(PointerState::Over);
    assert_eq!(button.model.toggle, Some(true));
    button.pointer(PointerState::Press);
    assert_eq!(button.model.toggle, Some(false));
}

#[test]
fn simple_button_paints_box_border_and_label() {
    let colors = SimpleColors::default();
    let mut button = Button::with_label("Go", SimpleButtonView::new(colors));
    button.pointer(PointerState::Over);
    let mut renderer = cursor(6400, 3200);
    button.render(&mut renderer);
    let fg = colors.fg_normal;
    assert_eq!(
        rects(&renderer.commands),
        vec![
            (640, 640, 6400, 3200, colors.bg_hover),
            (640, 640, 6400, 64, fg),
            (6976, 704, 64, 3072, fg),
            (640, 3776, 6400, 64, fg),
            (640, 704, 64, 3072, fg),
        ]
    );
    assert_eq!(renderer.commands.len(), 6);
    assert_eq!(
        renderer.commands[5],
        PaintCommand::Text {
            text: String::from("Go"),
            font: 0,
            font_size: 896,
            position: Vec2::new(3840, 2240),
            bounds: Vec2::new(6400, 3200),
            wrap: false,
            h_align: HorizontalAlign::Center,
            v_align: VerticalAlign::Center,
            color: fg,
        }
    );
    assert_eq!(renderer.position(), Vec2::new(640, 640));
}

#[test]
fn set_toggle_has_a_thick_border() {
    let mut model = ButtonModel::new("");
    model.toggle = Some(true);
    model.enabled = false;
    let colors = SimpleColors::default();
    let mut renderer = cursor(6400, 3200);
    SimpleButtonView::new(colors).paint(&mut renderer, &model);
    let found = rects(&renderer.commands);
    assert_eq!(found[0], (640, 640, 6400, 3200, colors.bg_disable));
    assert_eq!(found[1], (576, 576, 6528, 192, colors.fg_disable));
    assert_eq!(found[2], (6912, 768, 192, 2944, colors.fg_disable));
}

#[test]
fn checkbox_flips_and_tells_its_listeners() {
    let mut checkbox = Checkbox::new(CheckboxModel::new(false), SimpleCheckboxView::default());
    assert_eq!(checkbox.add_changed_listener(), 0);
    assert!(!checkbox.value());
    assert!(checkbox.enabled());
    checkbox.handle_pointer(PointerState::Over);
    checkbox.handle_pointer(PointerState::Press);
    assert!(checkbox.value());
    checkbox.handle_pointer(PointerState::Over);
    checkbox.handle_pointer(PointerState::Press);
    assert!(!checkbox.value());
    assert_eq!(
        checkbox.changed.take(),
        vec![Notice { listener: 0, param: true }, Notice { listener: 0, param: false }]
    );
    checkbox.set_value(true);
    assert!(checkbox.value());
    assert!(checkbox.changed.pending.is_empty());
    checkbox.set_enabled(false);
    checkbox.handle_pointer(PointerState::Over);
    checkbox.handle_pointer(PointerState::Press);
    assert!(checkbox.value());
    assert!(checkbox.changed.pending.is_empty());
}

#[test]
fn checkbox_model_defaults() {
    assert_eq!(
        CheckboxModel::default(),
        CheckboxModel { enabled: true, state: PointerState::Idle, value: false }
    );
    assert_eq!(
        CheckboxModel::new(true),
        CheckboxModel { enabled: true, state: PointerState::Idle, value: true }
    );
}

#[test]
fn checked_box_is_filled_in_its_middle() {
    let colors = SimpleColors::default();
    let view = SimpleCheckboxView::new(colors);
    let mut renderer = cursor(1536, 1536);
    view.paint(&mut renderer, &CheckboxModel::new(false));
    assert_eq!(renderer.commands.len(), 5);
    let mut renderer = cursor(1536, 1536);
    view.paint(&mut renderer, &CheckboxModel::new(true));
    let found = rects(&renderer.commands);
    assert_eq!(found.len(), 6);
    assert_eq!(found[0], (640, 640, 1536, 1536, colors.bg_normal));
    assert_eq!(found[5], (640 + 384, 640 + 384, 768, 768, colors.fg_normal));
}

#[test]
fn rocker_knob_lies_on_the_side_of_its_value() {
    let colors = SimpleColors::default();
    let view = SimpleRockerView::new(colors);
    let mut renderer = cursor(3072, 1536);
    view.paint(&mut renderer, &CheckboxModel::new(true));
    let on = rects(&renderer.commands);
    assert_eq!(on.len(), 6);
    assert_eq!(on[5], (640 + 2304 - 384, 640 + 384, 768, 768, colors.fg_normal));
    let mut renderer = cursor(3072, 1536);
    let checkbox = Checkbox::new(CheckboxModel::new(false), view);
    checkbox.render(&mut renderer);
    let off = rects(&renderer.commands);
    assert_eq!(off[5], (640 + 768 - 384, 640 + 384, 768, 768, colors.fg_normal));
}

#[test]
fn label_paints_its_text_in_its_colour() {
    let mut label = Label::new();
    assert_eq!(label.text(), "");
    label.set_text(String::from("Times Clicked: 3"));
    label.set_font(1);
    label.set_font_size(1024);
    label.set_halign(HorizontalAlign::Right);
    label.set_valign(VerticalAlign::Bottom);
    label.set_color(Color::new(1, 2, 3, 4));
    assert_eq!(label.text(), "Times Clicked: 3");
    let mut renderer = cursor(6400, 3200);
    label.render(&mut renderer);
    assert_eq!(
        renderer.commands,
        vec![PaintCommand::Text {
            text: String::from("Times Clicked: 3"),
            font: 1,
            font_size: 1024,
            position: Vec2::new(7040, 3840),
            bounds: Vec2::new(6400, 3200),
            wrap: false,
            h_align: HorizontalAlign::Right,
            v_align: VerticalAlign::Bottom,
            color: Color::new(1, 2, 3, 4),
        }]
    );
}

#[test]
fn new_label_is_light_grey() {
    let label = Label::with_text("Hi");
    assert_eq!(label.text(), "Hi");
    assert_eq!(label.color, Color::new(231, 231, 231, 255));
    assert_eq!(label.text.h_align, HorizontalAlign::Left);
    assert_eq!(label.text.v_align, VerticalAlign::Center);
    assert_eq!(label.text.font, 0);
    assert_eq!(label.text.font_size, 896);
}
