//! Check boxes and rocker switches.

use vstd::prelude::*;
use crate::cell::{Event, Notice};
use crate::gui::PointerState;
use crate::render::{GuiRenderer, PaintCommand, SimpleColors, border_strokes};
use crate::two::{EdgeRect, Vec2};
use crate::units::{sat, half, quarter, three_quarters, sat_sub};
use crate::view::{Control, Paint};

verus! {

/// What a check box is and what state it is in.
#[derive(Clone, Copy, PartialEq, Eq, Debug, Structural)]
pub struct CheckboxModel {
    pub enabled: bool,
    pub state: PointerState,
    pub value: bool,
}

impl Default for CheckboxModel {
    /// An enabled, unchecked box at rest.
    fn default() -> (model: CheckboxModel)
        ensures
            model == (CheckboxModel { enabled: true, state: PointerState::Idle, value: false }),
    {
        CheckboxModel { enabled: true, state: PointerState::Idle, value: false }
    }
}

impl CheckboxModel {
    pub fn new(value: bool) -> (model: CheckboxModel)
        ensures
            model == (CheckboxModel { enabled: true, state: PointerState::Idle, value }),
    {
        CheckboxModel { enabled: true, state: PointerState::Idle, value }
    }

    /// The pointer activates an enabled box when it goes from over the box
    /// to pressing it.
    pub open spec fn activates(self, state: PointerState) -> bool {
        self.enabled && self.state == PointerState::Over && state == PointerState::Press
    }

    /// The model after the pointer went to `state`: an activation flips the
    /// value.
    pub open spec fn after_pointer(self, state: PointerState) -> CheckboxModel {
        CheckboxModel {
            state,
            value: if self.activates(state) {
                !self.value
            } else {
                self.value
            },
            ..self
        }
    }
}

/// A skin for check boxes. Painting adds the commands of the skin and
/// leaves the position of the cursor where it was.
pub trait CheckboxView {
    /// What the skin paints for a check box into the box of the cursor.
    spec fn painted(&self, renderer: GuiRenderer, model: CheckboxModel) -> Seq<PaintCommand>;

    fn render(&self, renderer: &mut GuiRenderer, model: &CheckboxModel)
        ensures
            final(renderer).commands@ == old(renderer).commands@ + self.painted(
                *old(renderer),
                *model,
            ),
            final(renderer).translation == old(renderer).translation,
            final(renderer).translation_stack == old(renderer).translation_stack,
            final(renderer).size == old(renderer).size,
    ;
}

/// The box and the border that both skins start with.
pub open spec fn frame_painted(colors: SimpleColors, renderer: GuiRenderer, model: CheckboxModel)
    -> Seq<PaintCommand> {
    seq![
        PaintCommand::Rect {
            position: renderer.translation,
            size: renderer.size,
            color: colors.background(model.enabled, model.state),
        },
    ] + border_strokes(
        renderer.translation,
        renderer.size,
        colors.foreground(model.enabled),
        EdgeRect { top: 64, right: 64, bottom: 64, left: 64 },
    )
}

fn paint_frame(colors: &SimpleColors, renderer: &mut GuiRenderer, model: &CheckboxModel)
    ensures
        final(renderer).commands@ == old(renderer).commands@ + frame_painted(
            *colors,
            *old(renderer),
            *model,
        ),
        final(renderer).translation == old(renderer).translation,
        final(renderer).translation_stack == old(renderer).translation_stack,
        final(renderer).size == old(renderer).size,
        final(renderer).color == colors.foreground(model.enabled),
{
    renderer.set_color(colors.background(model.enabled, model.state));
    renderer.draw_rect();
    renderer.set_color(colors.foreground(model.enabled));
    renderer.draw_border(EdgeRect::splat(64));
    proof {
        assert(renderer.commands@ =~= old(renderer).commands@ + frame_painted(
            *colors,
            *old(renderer),
            *model,
        ));
    }
}

/// A box that is filled in its middle when it is checked.
#[derive(Clone, Copy, PartialEq, Eq, Debug)]
pub struct SimpleCheckboxView {
    pub colors: SimpleColors,
}

impl Default for SimpleCheckboxView {
    fn default() -> (view: SimpleCheckboxView)
        ensures
            view.colors == SimpleColors::greys(),
    {
        SimpleCheckboxView { colors: SimpleColors::default() }
    }
}

impl SimpleCheckboxView {
    pub fn new(colors: SimpleColors) -> (view: SimpleCheckboxView)
        ensures
            view.colors == colors,
    {
        SimpleCheckboxView { colors }
    }

    /// Paints the check box.
    pub fn paint(&self, renderer: &mut GuiRenderer, model: &CheckboxModel)
        ensures
            final(renderer).commands@ == old(renderer).commands@ + self.painted(
                *old(renderer),
                *model,
            ),
            final(renderer).translation == old(renderer).translation,
            final(renderer).translation_stack == old(renderer).translation_stack,
            final(renderer).size == old(renderer).size,
    {
        paint_frame(&self.colors, renderer, model);
        if model.value {
            let size = renderer.size();
            let point = Vec2 { x: quarter(size.x), y: quarter(size.y) };
            renderer.draw_rect_at(point, Vec2 { x: half(size.x), y: half(size.y) });
        }
        proof {
            assert(renderer.commands@ =~= old(renderer).commands@ + self.painted(
                *old(renderer),
                *model,
            ));
        }
    }
}

impl CheckboxView for SimpleCheckboxView {
    /// What the skin paints: box and border, and for a checked box a mark
    /// of half its size in its middle.
    open spec fn painted(&self, renderer: GuiRenderer, model: CheckboxModel) -> Seq<PaintCommand> {
        frame_painted(self.colors, renderer, model) + if model.value {
            seq![
                PaintCommand::Rect {
                    position: renderer.translation.plus(
                        Vec2 {
                            x: (renderer.size.x as int / 4) as i32,
                            y: (renderer.size.y as int / 4) as i32,
                        },
                    ),
                    size: Vec2 {
                        x: (renderer.size.x as int / 2) as i32,
                        y: (renderer.size.y as int / 2) as i32,
                    },
                    color: self.colors.foreground(model.enabled),
                },
            ]
        } else {
            Seq::empty()
        }
    }

    fn render(&self, renderer: &mut GuiRenderer, model: &CheckboxModel) {
        self.paint(renderer, model);
    }
}

/// A switch whose knob lies to the right when it is on, to the left when
/// it is off.
#[derive(Clone, Copy, PartialEq, Eq, Debug)]
pub struct SimpleRockerView {
    pub colors: SimpleColors,
}

impl Default for SimpleRockerView {
    fn default() -> (view: SimpleRockerView)
        ensures
            view.colors == SimpleColors::greys(),
    {
        SimpleRockerView { colors: SimpleColors::default() }
    }
}

impl SimpleRockerView {
    pub fn new(colors: SimpleColors) -> (view: SimpleRockerView)
        ensures
            view.colors == colors,
    {
        SimpleRockerView { colors }
    }

    /// Where the knob lies in a switch of the given size: a square of half
    /// the height, centred at three quarters of the width when the switch
    /// is on, at one quarter when it is off.
    pub open spec fn knob(size: Vec2, value: bool) -> (Vec2, Vec2) {
        let along = if value {
            (3 * size.x) / 4
        } else {
            size.x as int / 4
        };
        (
            Vec2 { x: sat(along - size.y as int / 4) as i32, y: (size.y as int / 4) as i32 },
            Vec2 { x: (size.y as int / 2) as i32, y: (size.y as int / 2) as i32 },
        )
    }

    /// Paints the switch.
    pub fn paint(&self, renderer: &mut GuiRenderer, model: &CheckboxModel)
        ensures
            final(renderer).commands@ == old(renderer).commands@ + self.painted(
                *old(renderer),
                *model,
            ),
            final(renderer).translation == old(renderer).translation,
            final(renderer).translation_stack == old(renderer).translation_stack,
            final(renderer).size == old(renderer).size,
    {
        paint_frame(&self.colors, renderer, model);
        let size = renderer.size();
        let fill_size = Vec2 { x: half(size.y), y: half(size.y) };
        let along = if model.value {
            three_quarters(size.x)
        } else {
            quarter(size.x)
        };
        let point = Vec2 { x: sat_sub(along, quarter(size.y)), y: quarter(size.y) };
        renderer.draw_rect_at(point, fill_size);
        proof {
            assert(renderer.commands@ =~= old(renderer).commands@ + self.painted(
                *old(renderer),
                *model,
            ));
        }
    }
}

impl CheckboxView for SimpleRockerView {
    /// What the skin paints: box and border, then the knob.
    open spec fn painted(&self, renderer: GuiRenderer, model: CheckboxModel) -> Seq<PaintCommand> {
        let (point, size) = Self::knob(renderer.size, model.value);
        frame_painted(self.colors, renderer, model) + seq![
            PaintCommand::Rect {
                position: renderer.translation.plus(point),
                size,
                color: self.colors.foreground(model.enabled),
            },
        ]
    }

    fn render(&self, renderer: &mut GuiRenderer, model: &CheckboxModel) {
        self.paint(renderer, model);
    }
}

/// A check box: its model, its skin, and those who want to know when its
/// value changes.
pub struct Checkbox<V: CheckboxView> {
    pub model: CheckboxModel,
    pub view: V,
    pub changed: Event<bool>,
}

impl<V: CheckboxView> Checkbox<V> {
    pub fn new(model: CheckboxModel, view: V) -> (checkbox: Checkbox<V>)
        ensures
            checkbox.model == model,
            checkbox.view == view,
            checkbox.changed.listeners == 0,
            checkbox.changed.pending@ == Seq::<Notice<bool>>::empty(),
    {
        Checkbox { model, view, changed: Event::new() }
    }

    pub fn value(&self) -> (value: bool)
        ensures
            value == self.model.value,
    {
        self.model.value
    }

    /// Sets the value. Nobody is told.
    pub fn set_value(&mut self, value: bool)
        ensures
            final(self).model == (CheckboxModel { value, ..old(self).model }),
            final(self).view == old(self).view,
            final(self).changed == old(self).changed,
    {
        self.model.value = value;
    }

    pub fn enabled(&self) -> (enabled: bool)
        ensures
            enabled == self.model.enabled,
    {
        self.model.enabled
    }

    pub fn set_enabled(&mut self, enabled: bool)
        ensures
            final(self).model == (CheckboxModel { enabled, ..old(self).model }),
            final(self).view == old(self).view,
            final(self).changed == old(self).changed,
    {
        self.model.enabled = enabled;
    }

    /// Adds a listener for changes and says which number it has.
    pub fn add_changed_listener(&mut self) -> (listener: usize)
        requires
            old(self).changed.listeners < usize::MAX,
        ensures
            listener == old(self).changed.listeners,
            final(self).changed.listeners == old(self).changed.listeners + 1,
            final(self).changed.pending == old(self).changed.pending,
            final(self).model == old(self).model,
            final(self).view == old(self).view,
    {
        self.changed.add_listener()
    }

    /// Takes the new state of the pointer. An activation flips the value
    /// and owes the new value to every listener.
    pub fn pointer(&mut self, state: PointerState)
        ensures
            final(self).model == old(self).model.after_pointer(state),
            final(self).view == old(self).view,
            final(self).changed.listeners == old(self).changed.listeners,
            final(self).changed.pending@ == old(self).changed.pending@ + (if old(
                self,
            ).model.activates(state) {
                Event::<bool>::notices(
                    old(self).changed.listeners as int,
                    !old(self).model.value,
                )
            } else {
                Seq::empty()
            }),
    {
        if self.model.enabled && self.model.state == PointerState::Over && state
            == PointerState::Press {
            self.model.value = !self.model.value;
            let value = self.model.value;
            self.changed.emit(&value);
        }
        self.model.state = state;
        proof {
            assert(self.changed.pending@ =~= old(self).changed.pending@ + (if old(
                self,
            ).model.activates(state) {
                Event::<bool>::notices(
                    old(self).changed.listeners as int,
                    !old(self).model.value,
                )
            } else {
                Seq::empty()
            }));
        }
    }
}

impl<V: CheckboxView> Paint for Checkbox<V> {
    /// A check box paints what its skin paints for its model.
    open spec fn painted(&self, renderer: GuiRenderer) -> Seq<PaintCommand> {
        self.view.painted(renderer, self.model)
    }

    fn render(&self, renderer: &mut GuiRenderer) {
        self.view.render(renderer, &self.model);
    }
}

impl<V: CheckboxView> Control for Checkbox<V> {
    /// Takes the new state of the pointer, as [`Checkbox::pointer`] does.
    fn handle_pointer(&mut self, state: PointerState)
        ensures
            final(self).model == old(self).model.after_pointer(state),
            final(self).view == old(self).view,
            final(self).changed.listeners == old(self).changed.listeners,
            final(self).changed.pending@ == old(self).changed.pending@ + (if old(
                self,
            ).model.activates(state) {
                Event::<bool>::notices(
                    old(self).changed.listeners as int,
                    !old(self).model.value,
                )
            } else {
                Seq::empty()
            }),
    {
        self.pointer(state);
    }
}

} // verus!
