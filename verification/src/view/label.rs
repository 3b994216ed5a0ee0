//! A line or block of text.

use vstd::prelude::*;
use vstd::string::StringExecFns;
use crate::color::Color;
use crate::render::{
    GuiRenderer, HorizontalAlign, PaintCommand, Text, VerticalAlign, text_command,
};
use crate::view::Paint;

verus! {

/// Text in one colour.
#[derive(Clone, PartialEq, Eq, Debug)]
pub struct Label {
    pub text: Text,
    pub color: Color,
}

impl Label {
    /// The colour of a label that was given none.
    pub open spec fn plain_color() -> Color {
        Color { r: 231, g: 231, b: 231, a: 255 }
    }

    /// An empty label.
    pub fn new() -> (label: Label)
        ensures
            label.text.text@ == Seq::<char>::empty(),
            label.text.font == 0,
            label.text.font_size == 14 * 64,
            label.text.h_align == HorizontalAlign::Left,
            label.text.v_align == VerticalAlign::Center,
            label.color == Label::plain_color(),
    {
        proof {
            reveal_strlit("");
        }
        Label::with_text("")
    }

    /// A label in the first font at 14 points, left and centred.
    pub fn with_text(text: &str) -> (label: Label)
        ensures
            label.text.text@ == text@,
            label.text.font == 0,
            label.text.font_size == 14 * 64,
            label.text.h_align == HorizontalAlign::Left,
            label.text.v_align == VerticalAlign::Center,
            label.color == Label::plain_color(),
    {
        Label {
            text: Text {
                font: 0,
                font_size: 14 * 64,
                text: String::from_str(text),
                h_align: HorizontalAlign::Left,
                v_align: VerticalAlign::Center,
            },
            color: Color { r: 231, g: 231, b: 231, a: 255 },
        }
    }

    pub fn text(&self) -> (text: &str)
        ensures
            text@ == self.text.text@,
    {
        self.text.text.as_str()
    }

    pub fn set_text(&mut self, string: String)
        ensures
            final(self).text == (Text { text: string, ..old(self).text }),
            final(self).color == old(self).color,
    {
        self.text.text = string;
    }

    pub fn set_font(&mut self, font: usize)
        ensures
            final(self).text == (Text { font, ..old(self).text }),
            final(self).color == old(self).color,
    {
        self.text.font = font;
    }

    pub fn set_font_size(&mut self, font_size: i32)
        ensures
            final(self).text == (Text { font_size, ..old(self).text }),
            final(self).color == old(self).color,
    {
        self.text.font_size = font_size;
    }

    pub fn set_halign(&mut self, h_align: HorizontalAlign)
        ensures
            final(self).text == (Text { h_align, ..old(self).text }),
            final(self).color == old(self).color,
    {
        self.text.h_align = h_align;
    }

    pub fn set_valign(&mut self, v_align: VerticalAlign)
        ensures
            final(self).text == (Text { v_align, ..old(self).text }),
            final(self).color == old(self).color,
    {
        self.text.v_align = v_align;
    }

    pub fn set_color(&mut self, color: Color)
        ensures
            final(self).text == old(self).text,
            final(self).color == color,
    {
        self.color = color;
    }

    /// Paints the text in the colour of the label.
    pub fn paint(&self, renderer: &mut GuiRenderer)
        ensures
            final(renderer).commands@ == old(renderer).commands@.push(
                text_command(
                    old(renderer).translation,
                    old(renderer).size,
                    self.color,
                    self.text,
                ),
            ),
            final(renderer).translation == old(renderer).translation,
            final(renderer).translation_stack == old(renderer).translation_stack,
            final(renderer).size == old(renderer).size,
            final(renderer).color == self.color,
    {
        renderer.set_color(self.color);
        renderer.draw_text(&self.text);
    }
}

impl Paint for Label {
    /// A label paints its text in its colour.
    open spec fn painted(&self, renderer: GuiRenderer) -> Seq<PaintCommand> {
        seq![text_command(renderer.translation, renderer.size, self.color, self.text)]
    }

    fn render(&self, renderer: &mut GuiRenderer)
        ensures
            final(renderer).color == self.color,
    {
        self.paint(renderer);
    }
}

} // verus!
