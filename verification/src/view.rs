//! Widgets: what a node paints and how it answers the pointer.

use vstd::prelude::*;
use crate::gui::PointerState;
use crate::render::{GuiRenderer, PaintCommand};

pub mod button;
pub mod checkbox;
pub mod label;

verus! {

/// Something that paints itself into the box of its node. Painting adds
/// the commands of the thing and leaves the position of the cursor where it
/// was.
pub trait Paint {
    /// What the thing paints into the box of the cursor.
    spec fn painted(&self, renderer: GuiRenderer) -> Seq<PaintCommand>;

    fn render(&self, renderer: &mut GuiRenderer)
        ensures
            final(renderer).commands@ == old(renderer).commands@ + self.painted(*old(renderer)),
            final(renderer).translation == old(renderer).translation,
            final(renderer).translation_stack == old(renderer).translation_stack,
            final(renderer).size == old(renderer).size,
    ;
}

/// Something that is told what the pointer does to its node.
pub trait Control {
    fn handle_pointer(&mut self, state: PointerState);
}

} // verus!
