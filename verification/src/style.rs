//! What a node asks of the layout.
//!
//! A [`NodeStyle`] holds, as plain values, the part of the flexbox engine's
//! style that this library hands on: a node is a flex container that keeps
//! its children on one line, and everything that a `NodeStyle` does not name
//! stays as the engine has it by default.

use vstd::prelude::*;
use crate::layout::{
    flex_style, style_with_align, style_with_sizes, style_with_spacing, style_with_place,
    style_flex, style_aligned, style_sized, style_spaced, style_placed,
};

verus! {

/// The direction in which a node lines up its children.
#[derive(Clone, Copy, PartialEq, Eq, Debug, Structural)]
pub enum Direction {
    Row,
    Column,
    RowReverse,
    ColumnReverse,
}

/// Where the children of a node lie across the direction of the line.
#[derive(Clone, Copy, PartialEq, Eq, Debug, Structural)]
pub enum Align {
    Start,
    End,
    FlexStart,
    FlexEnd,
    Center,
    Baseline,
    Stretch,
}

/// A length that is asked for: whatever the layout gives, or so many pixels.
#[derive(Clone, Copy, PartialEq, Eq, Debug, Structural)]
pub enum Dimension {
    Auto,
    Length(u32),
}

/// A width and a height that are asked for.
#[derive(Clone, Copy, PartialEq, Eq, Debug, Structural)]
pub struct Extent {
    pub width: Dimension,
    pub height: Dimension,
}

/// Pixels kept free inside each edge of a node.
#[derive(Clone, Copy, PartialEq, Eq, Debug, Structural)]
pub struct Edges {
    pub left: u32,
    pub right: u32,
    pub top: u32,
    pub bottom: u32,
}

/// Pixels kept free between neighbouring children: `width` between
/// columns, `height` between rows.
#[derive(Clone, Copy, PartialEq, Eq, Debug, Structural)]
pub struct Gap {
    pub width: u32,
    pub height: u32,
}

/// How a node finds its place in its parent.
#[derive(Clone, Copy, PartialEq, Eq, Debug, Structural)]
pub enum Place {
    /// In line with its siblings.
    Flow,
    /// Out of the line, at this offset in pixels from the left and the top
    /// edge of its parent.
    At { left: i32, top: i32 },
}

/// What a node asks of the layout.
#[derive(Clone, Copy, PartialEq, Eq, Debug, Structural)]
pub struct NodeStyle {
    pub direction: Direction,
    /// The share of this node in the space that its siblings leave.
    pub grow: u16,
    /// `None` leaves the choice to the engine.
    pub align_items: Option<Align>,
    pub size: Extent,
    pub min_size: Extent,
    pub padding: Edges,
    pub gap: Gap,
    pub place: Place,
}

impl Extent {
    /// Nothing asked for.
    pub open spec fn auto() -> Extent {
        Extent { width: Dimension::Auto, height: Dimension::Auto }
    }

    /// So many pixels each way.
    pub open spec fn fixed(width: u32, height: u32) -> Extent {
        Extent { width: Dimension::Length(width), height: Dimension::Length(height) }
    }
}

impl NodeStyle {
    /// The style of a node that asks for nothing: a row in the flow of its
    /// parent, with no size, padding or gap of its own.
    pub open spec fn plain() -> NodeStyle {
        NodeStyle {
            direction: Direction::Row,
            grow: 0,
            align_items: None,
            size: Extent::auto(),
            min_size: Extent::auto(),
            padding: Edges { left: 0, right: 0, top: 0, bottom: 0 },
            gap: Gap { width: 0, height: 0 },
            place: Place::Flow,
        }
    }

    /// The style with its size fixed to so many pixels.
    pub open spec fn sized(self, width: u32, height: u32) -> NodeStyle {
        NodeStyle { size: Extent::fixed(width, height), ..self }
    }

    /// The engine's style that stands for this one: the engine's default
    /// with the fields that this style names put in.
    pub open spec fn engine(self) -> taffy::Style {
        style_placed(
            style_spaced(
                style_sized(
                    style_aligned(style_flex(self.direction, self.grow), self.align_items),
                    self.size,
                    self.min_size,
                ),
                self.padding,
                self.gap,
            ),
            self.place,
        )
    }

    pub fn new() -> (style: NodeStyle)
        ensures
            style == NodeStyle::plain(),
    {
        NodeStyle {
            direction: Direction::Row,
            grow: 0,
            align_items: None,
            size: Extent { width: Dimension::Auto, height: Dimension::Auto },
            min_size: Extent { width: Dimension::Auto, height: Dimension::Auto },
            padding: Edges { left: 0, right: 0, top: 0, bottom: 0 },
            gap: Gap { width: 0, height: 0 },
            place: Place::Flow,
        }
    }

    /// This style with its size fixed to so many pixels.
    pub fn with_size(self, width: u32, height: u32) -> (style: NodeStyle)
        ensures
            style == self.sized(width, height),
    {
        NodeStyle {
            size: Extent { width: Dimension::Length(width), height: Dimension::Length(height) },
            ..self
        }
    }

    /// Makes the engine's style for this one.
    pub(crate) fn to_engine(&self) -> (made: taffy::Style)
        ensures
            made == self.engine(),
    {
        let flex = flex_style(self.direction, self.grow);
        let aligned = style_with_align(flex, self.align_items);
        let sized = style_with_sizes(aligned, self.size, self.min_size);
        let spaced = style_with_spacing(sized, self.padding, self.gap);
        style_with_place(spaced, self.place)
    }
}

/// Whether an engine's style stands for a [`NodeStyle`].
pub open spec fn made_of_plain_values(style: taffy::Style) -> bool {
    exists|s: NodeStyle| style == #[trigger] s.engine()
}

} // verus!
