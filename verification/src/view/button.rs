//! Push buttons and toggle buttons.

use vstd::prelude::*;
use vstd::string::StringExecFns;
use crate::cell::{Event, Notice};
use crate::gui::PointerState;
use crate::render::{
    GuiRenderer, HorizontalAlign, PaintCommand, SimpleColors, Text, VerticalAlign, border_strokes,
    text_command,
};
use crate::two::EdgeRect;
use crate::view::{Control, Paint};

verus! {

/// What a button is and what state it is in.
#[derive(Clone, PartialEq, Eq, Debug)]
pub struct ButtonModel {
    pub enabled: bool,
    pub state: PointerState,
    /// The setting of a toggle button; a push button has none.
    pub toggle: Option<bool>,
    pub label: Text,
}

impl Default for ButtonModel {
    /// An enabled push button at rest, with the default text.
    fn default() -> (model: ButtonModel)
        ensures
            model.enabled,
            model.state == PointerState::Idle,
            model.toggle is None,
            model.label.font == 0,
            model.label.font_size == 14 * 64,
            model.label.text@ == Seq::<char>::empty(),
            model.label.h_align == HorizontalAlign::Left,
            model.label.v_align == VerticalAlign::Center,
    {
        ButtonModel {
            enabled: true,
            state: PointerState::Idle,
            toggle: None,
            label: Text::default(),
        }
    }
}

impl ButtonModel {
    /// An enabled push button at rest with a centred label.
    pub fn new(label: &str) -> (model: ButtonModel)
        ensures
            model.enabled,
            model.state == PointerState::Idle,
            model.toggle is None,
            model.label.font == 0,
            model.label.font_size == 14 * 64,
            model.label.text@ == label@,
            model.label.h_align == HorizontalAlign::Center,
            model.label.v_align == VerticalAlign::Center,
    {
        ButtonModel {
            enabled: true,
            state: PointerState::Idle,
            toggle: None,
            label: Text {
                font: 0,
                font_size: 14 * 64,
                text: String::from_str(label),
                h_align: HorizontalAlign::Center,
                v_align: VerticalAlign::Center,
            },
        }
    }

    /// The pointer activates an enabled button when it goes from over the
    /// button to pressing it.
    pub open spec fn activates(self, state: PointerState) -> bool {
        self.enabled && self.state == PointerState::Over && state == PointerState::Press
    }

    /// The model after the pointer went to `state`: an activation flips a
    /// toggle.
    pub open spec fn after_pointer(self, state: PointerState) -> ButtonModel {
        ButtonModel {
            state,
            toggle: if self.activates(state) && self.toggle is Some {
                Some(!self.toggle.unwrap())
            } else {
                self.toggle
            },
            ..self
        }
    }

    /// The width of the border in units: three pixels for a toggle that is
    /// set, else one.
    pub open spec fn border_width(self) -> i32 {
        if self.toggle == Some(true) {
            192
        } else {
            64
        }
    }
}

/// A skin for buttons. Painting adds the commands of the skin and leaves
/// the position of the cursor where it was.
pub trait ButtonView {
    /// What the skin paints for a button into the box of the cursor.
    spec fn painted(&self, renderer: GuiRenderer, model: ButtonModel) -> Seq<PaintCommand>;

    fn render(&self, renderer: &mut GuiRenderer, model: &ButtonModel)
        ensures
            final(renderer).commands@ == old(renderer).commands@ + self.painted(
                *old(renderer),
                *model,
            ),
            final(renderer).translation == old(renderer).translation,
            final(renderer).translation_stack == old(renderer).translation_stack,
            final(renderer).size == old(renderer).size,
    ;
}

/// A flat skin: a filled box, a border and the label.
#[derive(Clone, Copy, PartialEq, Eq, Debug)]
pub struct SimpleButtonView {
    pub colors: SimpleColors,
}

impl Default for SimpleButtonView {
    fn default() -> (view: SimpleButtonView)
        ensures
            view.colors == SimpleColors::greys(),
    {
        SimpleButtonView { colors: SimpleColors::default() }
    }
}

impl SimpleButtonView {
    pub fn new(colors: SimpleColors) -> (view: SimpleButtonView)
        ensures
            view.colors == colors,
    {
        SimpleButtonView { colors }
    }

    /// Paints the button.
    pub fn paint(&self, renderer: &mut GuiRenderer, model: &ButtonModel)
        ensures
            final(renderer).commands@ == old(renderer).commands@ + self.painted(
                *old(renderer),
                *model,
            ),
            final(renderer).translation == old(renderer).translation,
            final(renderer).translation_stack == old(renderer).translation_stack,
            final(renderer).size == old(renderer).size,
            final(renderer).color == self.colors.foreground(model.enabled),
    {
        renderer.set_color(self.colors.background(model.enabled, model.state));
        renderer.draw_rect();
        renderer.set_color(self.colors.foreground(model.enabled));
        let set = match model.toggle {
            Some(set) => set,
            None => false,
        };
        let border: i32 = if set {
            3 * 64
        } else {
            64
        };
        renderer.draw_border(EdgeRect::splat(border));
        renderer.draw_text(&model.label);
        proof {
            assert(renderer.commands@ =~= old(renderer).commands@ + self.painted(
                *old(renderer),
                *model,
            ));
        }
    }
}

impl ButtonView for SimpleButtonView {
    /// What the skin paints: the box in the background colour of the
    /// button's state, then border and label in the foreground colour.
    open spec fn painted(&self, renderer: GuiRenderer, model: ButtonModel) -> Seq<PaintCommand> {
        let foreground = self.colors.foreground(model.enabled);
        seq![
            PaintCommand::Rect {
                position: renderer.translation,
                size: renderer.size,
                color: self.colors.background(model.enabled, model.state),
            },
        ] + border_strokes(
            renderer.translation,
            renderer.size,
            foreground,
            EdgeRect {
                top: model.border_width(),
                right: model.border_width(),
                bottom: model.border_width(),
                left: model.border_width(),
            },
        ) + seq![text_command(renderer.translation, renderer.size, foreground, model.label)]
    }

    fn render(&self, renderer: &mut GuiRenderer, model: &ButtonModel)
        ensures
            final(renderer).color == self.colors.foreground(model.enabled),
    {
        self.paint(renderer, model);
    }
}

/// A button: its model, its skin, and those who want to know when it is
/// pressed.
pub struct Button<V: ButtonView> {
    pub model: ButtonModel,
    pub view: V,
    pub pressed: Event<()>,
}

impl<V: ButtonView> Button<V> {
    pub fn new(model: ButtonModel, view: V) -> (button: Button<V>)
        ensures
            button.model == model,
            button.view == view,
            button.pressed.listeners == 0,
            button.pressed.pending@ == Seq::<Notice<()>>::empty(),
    {
        Button { model, view, pressed: Event::new() }
    }

    pub fn with_label(label: &str, view: V) -> (button: Button<V>)
        ensures
            button.model.enabled,
            button.model.state == PointerState::Idle,
            button.model.toggle is None,
            button.model.label.text@ == label@,
            button.model.label.h_align == HorizontalAlign::Center,
            button.model.label.v_align == VerticalAlign::Center,
            button.view == view,
            button.pressed.listeners == 0,
    {
        Button::new(ButtonModel::new(label), view)
    }

    pub fn enabled(&self) -> (enabled: bool)
        ensures
            enabled == self.model.enabled,
    {
        self.model.enabled
    }

    pub fn set_enabled(&mut self, enabled: bool)
        ensures
            final(self).model == (ButtonModel { enabled, ..old(self).model }),
            final(self).view == old(self).view,
            final(self).pressed == old(self).pressed,
    {
        self.model.enabled = enabled;
    }

    /// Adds a listener for presses and says which number it has.
    pub fn add_pressed_listener(&mut self) -> (listener: usize)
        requires
            old(self).pressed.listeners < usize::MAX,
        ensures
            listener == old(self).pressed.listeners,
            final(self).pressed.listeners == old(self).pressed.listeners + 1,
            final(self).pressed.pending == old(self).pressed.pending,
            final(self).model == old(self).model,
            final(self).view == old(self).view,
    {
        self.pressed.add_listener()
    }

    /// Takes the new state of the pointer. An activation flips a toggle and
    /// owes a notice to every listener.
    pub fn pointer(&mut self, state: PointerState)
        ensures
            final(self).model == old(self).model.after_pointer(state),
            final(self).view == old(self).view,
            final(self).pressed.listeners == old(self).pressed.listeners,
            final(self).pressed.pending@ == old(self).pressed.pending@ + (if old(
                self,
            ).model.activates(state) {
                Event::<()>::notices(old(self).pressed.listeners as int, ())
            } else {
                Seq::empty()
            }),
    {
        if self.model.enabled && self.model.state == PointerState::Over && state
            == PointerState::Press {
            match self.model.toggle {
                Some(set) => {
                    self.model.toggle = Some(!set);
                },
                None => {},
            }
            self.pressed.emit(&());
        }
        self.model.state = state;
        proof {
            assert(self.pressed.pending@ =~= old(self).pressed.pending@ + (if old(
                self,
            ).model.activates(state) {
                Event::<()>::notices(old(self).pressed.listeners as int, ())
            } else {
                Seq::empty()
            }));
        }
    }
}

impl<V: ButtonView> Paint for Button<V> {
    /// A button paints what its skin paints for its model.
    open spec fn painted(&self, renderer: GuiRenderer) -> Seq<PaintCommand> {
        self.view.painted(renderer, self.model)
    }

    fn render(&self, renderer: &mut GuiRenderer) {
        self.view.render(renderer, &self.model);
    }
}

impl<V: ButtonView> Control for Button<V> {
    /// Takes the new state of the pointer, as [`Button::pointer`] does.
    fn handle_pointer(&mut self, state: PointerState)
        ensures
            final(self).model == old(self).model.after_pointer(state),
            final(self).view == old(self).view,
            final(self).pressed.listeners == old(self).pressed.listeners,
            final(self).pressed.pending@ == old(self).pressed.pending@ + (if old(
                self,
            ).model.activates(state) {
                Event::<()>::notices(old(self).pressed.listeners as int, ())
            } else {
                Seq::empty()
            }),
    {
        self.pointer(state);
    }
}

} // verus!
