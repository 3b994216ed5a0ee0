//! Painting: the commands that a frame is made of, and the cursor that
//! widgets and the tree walker paint with.

use vstd::prelude::*;
use vstd::string::StringSliceAdditionalSpecFns;
use crate::color::Color;
use crate::gui::PointerState;
use crate::layout::NodeId;
use crate::two::{EdgeRect, Vec2};
use crate::units::{sat, sat_add, sat_sub, half};

verus! {

#[derive(Clone, Copy, PartialEq, Eq, Debug, Structural)]
pub enum HorizontalAlign {
    Left,
    Center,
    Right,
}

#[derive(Clone, Copy, PartialEq, Eq, Debug, Structural)]
pub enum VerticalAlign {
    Top,
    Center,
    Bottom,
}

impl HorizontalAlign {
    /// Where text of this alignment is pinned in a box of the given width.
    pub open spec fn offset(self, width: int) -> int {
        match self {
            HorizontalAlign::Left => 0,
            HorizontalAlign::Center => width / 2,
            HorizontalAlign::Right => width,
        }
    }
}

impl VerticalAlign {
    /// Where text of this alignment is pinned in a box of the given height.
    pub open spec fn offset(self, height: int) -> int {
        match self {
            VerticalAlign::Top => 0,
            VerticalAlign::Center => height / 2,
            VerticalAlign::Bottom => height,
        }
    }
}

/// A run of text and how it is set.
#[derive(Clone, PartialEq, Eq, Debug)]
pub struct Text {
    /// Index of the font among those that the text engine was given.
    pub font: usize,
    /// Size in sixty-fourths of a point.
    pub font_size: i32,
    pub text: String,
    pub h_align: HorizontalAlign,
    pub v_align: VerticalAlign,
}

impl Default for Text {
    /// Empty text in the first font at 14 points, left and centred.
    fn default() -> (text: Text)
        ensures
            text.font == 0,
            text.font_size == 14 * 64,
            text.text@ == Seq::<char>::empty(),
            text.h_align == HorizontalAlign::Left,
            text.v_align == VerticalAlign::Center,
    {
        Text {
            font: 0,
            font_size: 14 * 64,
            text: String::new(),
            h_align: HorizontalAlign::Left,
            v_align: VerticalAlign::Center,
        }
    }
}

/// One step of painting a frame. Commands are carried out in the order in
/// which they were issued; a later one paints over an earlier one.
#[derive(Clone, PartialEq, Eq, Debug)]
pub enum PaintCommand {
    /// A filled rectangle.
    Rect { position: Vec2, size: Vec2, color: Color },
    /// A run of text, pinned at `position` and kept within `bounds`.
    Text {
        text: String,
        font: usize,
        font_size: i32,
        position: Vec2,
        bounds: Vec2,
        /// Whether the text is broken into lines.
        wrap: bool,
        h_align: HorizontalAlign,
        v_align: VerticalAlign,
        color: Color,
    },
    /// The content that the widget of `node` paints into the node's box.
    Foreground { node: NodeId, position: Vec2, size: Vec2 },
}

/// The byte that ends a line.
pub const LINE_FEED: u8 = 10;

/// Whether the bytes of the text hold a line feed.
pub open spec fn breaks_lines(text: Seq<char>) -> bool {
    vstd::utf8::encode_utf8(text).contains(LINE_FEED)
}

/// Whether the text holds a line feed, and so has to be broken into lines.
pub fn has_line_break(text: &str) -> (found: bool)
    ensures
        found == breaks_lines(text@),
{
    let bytes = text.as_bytes();
    let mut i: usize = 0;
    while i < bytes.len()
        invariant
            i <= bytes@.len(),
            bytes@ == text.spec_bytes(),
            forall|j: int| 0 <= j < i ==> bytes@[j] != LINE_FEED,
        decreases bytes@.len() - i,
    {
        if bytes[i] == LINE_FEED {
            return true;
        }
        i = i + 1;
    }
    false
}

/// The rectangle that a stroke of the given width covers when it is drawn
/// from `start` to `to`: the line between the two points, widened by half
/// the width on every side. A stroke that is wider than it is high lies
/// flat; any other stands upright.
pub open spec fn stroke_box(start: Vec2, to: Vec2, line_width: i32) -> (Vec2, Vec2) {
    let extent = line_width as int / 2;
    if abs(to.x - start.x) > abs(to.y - start.y) {
        let x = sat(min(to.x as int, start.x as int) - extent);
        let y = sat(start.y - extent);
        let width = sat(sat(max(to.x as int, start.x as int) + extent) - x);
        (Vec2 { x: x as i32, y: y as i32 }, Vec2 { x: width as i32, y: line_width })
    } else {
        let x = sat(start.x - extent);
        let y = sat(min(to.y as int, start.y as int) - extent);
        let height = sat(sat(max(to.y as int, start.y as int) + extent) - y);
        (Vec2 { x: x as i32, y: y as i32 }, Vec2 { x: line_width, y: height as i32 })
    }
}

pub open spec fn abs(v: int) -> int {
    if v < 0 {
        -v
    } else {
        v
    }
}

pub open spec fn min(a: int, b: int) -> int {
    if a <= b {
        a
    } else {
        b
    }
}

pub open spec fn max(a: int, b: int) -> int {
    if a >= b {
        a
    } else {
        b
    }
}

/// The command that paints the stroke from `start` to `to`.
pub open spec fn stroke(translation: Vec2, color: Color, start: Vec2, to: Vec2, line_width: i32)
    -> PaintCommand {
    let (position, size) = stroke_box(start, to, line_width);
    PaintCommand::Rect { position: translation.plus(position), size, color }
}

/// The rectangle of a stroke, as [`stroke_box`] gives it.
fn stroke_rect(start: Vec2, to: Vec2, line_width: i32) -> (rect: (Vec2, Vec2))
    ensures
        rect == stroke_box(start, to, line_width),
{
    let extent = half(line_width);
    let dx: i64 = to.x as i64 - start.x as i64;
    let dy: i64 = to.y as i64 - start.y as i64;
    let across: i64 = if dx < 0 {
        -dx
    } else {
        dx
    };
    let along: i64 = if dy < 0 {
        -dy
    } else {
        dy
    };
    if across > along {
        let low = if to.x < start.x {
            to.x
        } else {
            start.x
        };
        let high = if to.x > start.x {
            to.x
        } else {
            start.x
        };
        let rect_x = sat_sub(low, extent);
        let rect_y = sat_sub(start.y, extent);
        let width = sat_sub(sat_add(high, extent), rect_x);
        (Vec2 { x: rect_x, y: rect_y }, Vec2 { x: width, y: line_width })
    } else {
        let low = if to.y < start.y {
            to.y
        } else {
            start.y
        };
        let high = if to.y > start.y {
            to.y
        } else {
            start.y
        };
        let rect_x = sat_sub(start.x, extent);
        let rect_y = sat_sub(low, extent);
        let height = sat_sub(sat_add(high, extent), rect_y);
        (Vec2 { x: rect_x, y: rect_y }, Vec2 { x: line_width, y: height })
    }
}

/// Draws straight strokes from point to point.
struct PathBuilder {
    translation: Vec2,
    start: Vec2,
    line_width: i32,
    color: Color,
}

impl PathBuilder {
    fn new(translation: Vec2, color: Color) -> (path: PathBuilder)
        ensures
            path.translation == translation,
            path.color == color,
            path.start == (Vec2 { x: 0, y: 0 }),
            path.line_width == 0,
    {
        PathBuilder { translation, start: Vec2 { x: 0, y: 0 }, line_width: 0, color }
    }

    fn set_line_width(&mut self, width: i32)
        ensures
            *final(self) == (PathBuilder { line_width: width, ..*old(self) }),
    {
        self.line_width = width;
    }

    fn move_to(&mut self, x: i32, y: i32)
        ensures
            *final(self) == (PathBuilder { start: Vec2 { x, y }, ..*old(self) }),
    {
        self.start = Vec2 { x, y };
    }

    fn line_to(&mut self, commands: &mut Vec<PaintCommand>, x: i32, y: i32)
        ensures
            *final(self) == (PathBuilder { start: Vec2 { x, y }, ..*old(self) }),
            final(commands)@ == old(commands)@.push(
                stroke(
                    old(self).translation,
                    old(self).color,
                    old(self).start,
                    Vec2 { x, y },
                    old(self).line_width,
                ),
            ),
    {
        let (position, size) = stroke_rect(self.start, Vec2 { x, y }, self.line_width);
        commands.push(
            PaintCommand::Rect { position: self.translation.add(position), size, color: self.color },
        );
        self.start = Vec2 { x, y };
    }
}

/// Half a pixel: how far inside the box the middle of a border line runs.
pub const HALF_PIXEL: i32 = 32;

/// The four corners between which the border of a box of the given size runs.
pub open spec fn border_corner(size: Vec2, right: bool, bottom: bool) -> Vec2 {
    Vec2 {
        x: if right {
            sat(size.x - HALF_PIXEL) as i32
        } else {
            HALF_PIXEL
        },
        y: if bottom {
            sat(size.y - HALF_PIXEL) as i32
        } else {
            HALF_PIXEL
        },
    }
}

/// A line of a border: from where to where its middle runs, and how wide
/// it is.
#[derive(Clone, Copy, PartialEq, Eq, Debug, Structural)]
pub struct BorderLine {
    pub start: Vec2,
    pub to: Vec2,
    pub width: i32,
}

impl BorderLine {
    /// The rectangle that the line covers in the space of its box.
    #[verifier::opaque]
    pub open spec fn covered(self) -> (Vec2, Vec2) {
        stroke_box(self.start, self.to, self.width)
    }
}

/// The line along the top edge that the box has room for: from corner to
/// corner, if the edge has a width.
pub open spec fn top_line(size: Vec2, border: EdgeRect) -> Option<BorderLine> {
    if border.top > 0 {
        Some(
            BorderLine {
                start: border_corner(size, false, false),
                to: border_corner(size, true, false),
                width: border.top,
            },
        )
    } else {
        None
    }
}

/// The line along the bottom edge that the box has room for: from corner
/// to corner, if the edge has a width and the line stays clear of the line
/// along the top edge.
pub open spec fn bottom_line(size: Vec2, border: EdgeRect) -> Option<BorderLine> {
    let line = BorderLine {
        start: border_corner(size, true, true),
        to: border_corner(size, false, true),
        width: border.bottom,
    };
    if border.bottom > 0 && (top_line(size, border) matches Some(top) ==> line.covered().0.y
        >= top.covered().0.y + top.covered().1.y) {
        Some(line)
    } else {
        None
    }
}

/// Where the lines along the left and right edges begin: below the line
/// along the top edge, or, without one, as far above the corner as a line
/// of the given width reaches.
pub open spec fn span_start(size: Vec2, border: EdgeRect, width: i32) -> int {
    match top_line(size, border) {
        Some(top) => top.covered().0.y + top.covered().1.y,
        None => HALF_PIXEL - width as int / 2,
    }
}

/// Where the lines along the left and right edges end: above the line along
/// the bottom edge, or, without one, as far below the corner as a line of
/// the given width reaches.
pub open spec fn span_end(size: Vec2, border: EdgeRect, width: i32) -> int {
    match bottom_line(size, border) {
        Some(bottom) => bottom.covered().0.y as int,
        None => sat(size.y - HALF_PIXEL) + width as int / 2,
    }
}

/// An upright line at `x` that fills the room between the lines along the
/// top and the bottom edge, if it has a width and there is room for it. Its
/// ends are set in by half its width, so that it covers that room and no
/// more.
pub open spec fn upright_line(size: Vec2, border: EdgeRect, x: i32, width: i32, down: bool)
    -> Option<BorderLine> {
    let upper = span_start(size, border, width) + width as int / 2;
    let lower = span_end(size, border, width) - width as int / 2;
    if width > 0 && i32::MIN <= upper <= lower <= i32::MAX {
        let high = Vec2 { x, y: upper as i32 };
        let low = Vec2 { x, y: lower as i32 };
        if down {
            Some(BorderLine { start: high, to: low, width })
        } else {
            Some(BorderLine { start: low, to: high, width })
        }
    } else {
        None
    }
}

/// The line along the left edge that the box has room for, drawn upwards.
pub open spec fn left_line(size: Vec2, border: EdgeRect) -> Option<BorderLine> {
    upright_line(size, border, HALF_PIXEL, border.left, false)
}

/// The line along the right edge that the box has room for, drawn
/// downwards, if it stays clear of the line along the left edge.
pub open spec fn right_line(size: Vec2, border: EdgeRect) -> Option<BorderLine> {
    match upright_line(size, border, sat(size.x - HALF_PIXEL) as i32, border.right, true) {
        Some(line) => if left_line(size, border) matches Some(left) ==> line.covered().0.x
            >= left.covered().0.x + left.covered().1.x {
            Some(line)
        } else {
            None
        },
        None => None,
    }
}

/// The line that is stroked for an edge of the given width: the line that
/// the box has room for; where it has none, a line without extent at the
/// corner where the edge begins, which covers nothing; and no line for an
/// edge of width zero or less.
pub open spec fn edge_line(width: i32, fitting: Option<BorderLine>, corner: Vec2) -> Option<
    BorderLine,
> {
    if width <= 0 {
        None
    } else {
        match fitting {
            Some(line) => Some(line),
            None => Some(BorderLine { start: corner, to: corner, width: 0 }),
        }
    }
}

/// The lines that are stroked for the edges of a border: top, right,
/// bottom, left.
#[verifier::opaque]
pub open spec fn edge_lines(size: Vec2, border: EdgeRect) -> (
    Option<BorderLine>,
    Option<BorderLine>,
    Option<BorderLine>,
    Option<BorderLine>,
) {
    (
        edge_line(border.top, top_line(size, border), border_corner(size, false, false)),
        edge_line(border.right, right_line(size, border), border_corner(size, true, false)),
        edge_line(border.bottom, bottom_line(size, border), border_corner(size, true, true)),
        edge_line(border.left, left_line(size, border), border_corner(size, false, true)),
    )
}

/// One edge of a border: the stroke of its line, if it has one.
pub open spec fn border_edge(translation: Vec2, color: Color, line: Option<BorderLine>) -> Seq<
    PaintCommand,
> {
    match line {
        Some(line) => seq![stroke(translation, color, line.start, line.to, line.width)],
        None => Seq::empty(),
    }
}

/// The strokes of a border, clockwise from the top edge: one for each edge
/// of a width above zero. The lines along the top and the bottom edge run
/// from corner to corner; the lines along the left and the right edge run
/// between them, so that no corner is covered twice. Where the box has no
/// room for an edge, its stroke is without extent.
#[verifier::opaque]
pub open spec fn border_strokes(translation: Vec2, size: Vec2, color: Color, border: EdgeRect)
    -> Seq<PaintCommand> {
    let lines = edge_lines(size, border);
    border_edge(translation, color, lines.0) + border_edge(translation, color, lines.1)
        + border_edge(translation, color, lines.2) + border_edge(translation, color, lines.3)
}

/// How many strokes an edge of the given width has.
pub open spec fn edge_strokes(width: i32) -> nat {
    if width > 0 {
        1
    } else {
        0
    }
}

/// Whether the rectangle of a command covers a point.
pub open spec fn covers(command: PaintCommand, x: int, y: int) -> bool {
    command matches PaintCommand::Rect { position, size, .. } && position.x <= x < position.x
        + size.x && position.y <= y < position.y + size.y
}

/// The largest length for which the laws of the border are stated: 2^28
/// units, some four million pixels.
pub const BORDER_RANGE: i32 = 0x1000_0000;

/// Position, size and widths are of a size at which no sum saturates.
pub open spec fn border_in_range(translation: Vec2, size: Vec2, border: EdgeRect) -> bool {
    &&& -BORDER_RANGE <= translation.x <= BORDER_RANGE
    &&& -BORDER_RANGE <= translation.y <= BORDER_RANGE
    &&& 0 <= size.x <= BORDER_RANGE
    &&& 0 <= size.y <= BORDER_RANGE
    &&& border.top <= BORDER_RANGE
    &&& border.right <= BORDER_RANGE
    &&& border.bottom <= BORDER_RANGE
    &&& border.left <= BORDER_RANGE
}

/// Whether the stroke of a line covers a point.
pub open spec fn line_covers(translation: Vec2, color: Color, line: Option<BorderLine>, x: int, y: int)
    -> bool {
    line matches Some(line) && covers(
        stroke(translation, color, line.start, line.to, line.width),
        x,
        y,
    )
}

/// A level line whose ends and width are in range covers a rectangle that
/// begins at most its width above it and ends at most its width below it.
proof fn lemma_covered_in_range(line: BorderLine)
    requires
        -0x40 <= line.start.x <= 0x1000_0000,
        -0x40 <= line.to.x <= 0x1000_0000,
        -0x40 <= line.start.y <= 0x1000_0000,
        line.to.y == line.start.y,
        0 < line.width <= 0x1000_0000,
    ensures
        -0x1000_0000 <= line.covered().0.x <= 0x1000_0000,
        line.start.y - line.width <= line.covered().0.y <= line.start.y,
        0 <= line.covered().1.y,
        line.covered().0.y + line.covered().1.y <= line.start.y + line.width,
{
    reveal(BorderLine::covered);
}

/// An upright line covers the room from its upper end less half its width
/// to its lower end and half its width.
proof fn lemma_upright_covered(line: BorderLine, upper: int, lower: int)
    requires
        line.start.x == line.to.x,
        -0x2000_0000 <= line.start.x <= 0x2000_0000,
        -0x3000_0000 <= upper <= lower <= 0x3000_0000,
        (line.start.y == upper && line.to.y == lower) || (line.start.y == lower && line.to.y
            == upper),
        0 < line.width <= 0x1000_0000,
    ensures
        line.covered().0.x == line.start.x - line.width as int / 2,
        line.covered().0.y == upper - line.width as int / 2,
        line.covered().1.x == line.width,
        line.covered().0.y + line.covered().1.y == lower + line.width as int / 2,
{
    reveal(BorderLine::covered);
}

/// What the stroke of a line covers is its rectangle, moved by the
/// translation.
proof fn lemma_stroke_covers(translation: Vec2, color: Color, line: BorderLine, x: int, y: int)
    requires
        -0x1000_0000 <= translation.x <= 0x1000_0000,
        -0x1000_0000 <= translation.y <= 0x1000_0000,
        -0x4000_0000 <= line.covered().0.x <= 0x4000_0000,
        -0x4000_0000 <= line.covered().0.y <= 0x4000_0000,
    ensures
        covers(stroke(translation, color, line.start, line.to, line.width), x, y) <==> {
            &&& line.covered().0.x <= x - translation.x < line.covered().0.x + line.covered().1.x
            &&& line.covered().0.y <= y - translation.y < line.covered().0.y + line.covered().1.y
        },
{
    reveal(BorderLine::covered);
}

/// The lines along the top and the bottom edge lie in range.
proof fn lemma_level_lines(size: Vec2, border: EdgeRect)
    requires
        border_in_range(Vec2 { x: 0, y: 0 }, size, border),
    ensures
        top_line(size, border) matches Some(top) ==> {
            &&& -0x1000_0000 <= top.covered().0.x <= 0x1000_0000
            &&& -0x1000_0000 <= top.covered().0.y <= 0x40
            &&& 0 <= top.covered().1.y
            &&& top.covered().0.y + top.covered().1.y <= 0x1000_0040
        },
        bottom_line(size, border) matches Some(bottom) ==> {
            &&& -0x1000_0000 <= bottom.covered().0.x <= 0x1000_0000
            &&& -0x1000_0040 <= bottom.covered().0.y <= 0x1000_0000
            &&& 0 <= bottom.covered().1.y
            &&& bottom.covered().0.y + bottom.covered().1.y <= 0x2000_0000
        },
{
    if border.top > 0 {
        lemma_covered_in_range(top_line(size, border).unwrap());
    }
    if border.bottom > 0 {
        lemma_covered_in_range(
            BorderLine {
                start: border_corner(size, true, true),
                to: border_corner(size, false, true),
                width: border.bottom,
            },
        );
    }
}

/// An upright line of a border covers the room between the lines along the
/// top and the bottom edge, at its place across.
proof fn lemma_upright_line(size: Vec2, border: EdgeRect, x: i32, width: i32, down: bool)
    requires
        border_in_range(Vec2 { x: 0, y: 0 }, size, border),
        -0x2000_0000 <= x <= 0x2000_0000,
        width <= 0x1000_0000,
    ensures
        upright_line(size, border, x, width, down) matches Some(line) ==> {
            &&& line.covered().0.x == x - width as int / 2
            &&& line.covered().1.x == width
            &&& line.covered().0.y == span_start(size, border, width)
            &&& line.covered().0.y + line.covered().1.y == span_end(size, border, width)
            &&& -0x3000_0000 <= line.covered().0.y <= 0x3000_0000
            &&& -0x3000_0000 <= line.covered().0.x <= 0x3000_0000
        },
{
    lemma_level_lines(size, border);
    if upright_line(size, border, x, width, down) is Some {
        let line = upright_line(size, border, x, width, down).unwrap();
        let upper = span_start(size, border, width) + width as int / 2;
        let lower = span_end(size, border, width) - width as int / 2;
        lemma_upright_covered(line, upper, lower);
    }
}

/// A line without extent covers nothing.
proof fn lemma_empty_line(translation: Vec2, color: Color, corner: Vec2, x: int, y: int)
    ensures
        !covers(stroke(translation, color, corner, corner, 0), x, y),
{
}

/// No point is covered by the strokes of two edges of one border.
pub proof fn lemma_border_edges_apart(
    translation: Vec2,
    size: Vec2,
    color: Color,
    border: EdgeRect,
    x: int,
    y: int,
)
    requires
        border_in_range(translation, size, border),
    ensures
        ({
            let lines = edge_lines(size, border);
            let top = line_covers(translation, color, lines.0, x, y);
            let right = line_covers(translation, color, lines.1, x, y);
            let bottom = line_covers(translation, color, lines.2, x, y);
            let left = line_covers(translation, color, lines.3, x, y);
            &&& !(top && right)
            &&& !(top && bottom)
            &&& !(top && left)
            &&& !(right && bottom)
            &&& !(right && left)
            &&& !(bottom && left)
        }),
{
    reveal(edge_lines);
    lemma_fitting_lines_apart(translation, size, color, border, x, y);
    lemma_empty_line(translation, color, border_corner(size, false, false), x, y);
    lemma_empty_line(translation, color, border_corner(size, true, false), x, y);
    lemma_empty_line(translation, color, border_corner(size, true, true), x, y);
    lemma_empty_line(translation, color, border_corner(size, false, true), x, y);
}

/// No point is covered by two of the lines that the box has room for.
proof fn lemma_fitting_lines_apart(
    translation: Vec2,
    size: Vec2,
    color: Color,
    border: EdgeRect,
    x: int,
    y: int,
)
    requires
        border_in_range(translation, size, border),
    ensures
        ({
            let top = line_covers(translation, color, top_line(size, border), x, y);
            let right = line_covers(translation, color, right_line(size, border), x, y);
            let bottom = line_covers(translation, color, bottom_line(size, border), x, y);
            let left = line_covers(translation, color, left_line(size, border), x, y);
            &&& !(top && right)
            &&& !(top && bottom)
            &&& !(top && left)
            &&& !(right && bottom)
            &&& !(right && left)
            &&& !(bottom && left)
        }),
{
    lemma_level_lines(size, border);
    let right_x = sat(size.x - HALF_PIXEL) as i32;
    lemma_upright_line(size, border, HALF_PIXEL, border.left, false);
    lemma_upright_line(size, border, right_x, border.right, true);
    if top_line(size, border) is Some {
        lemma_stroke_covers(translation, color, top_line(size, border).unwrap(), x, y);
    }
    if bottom_line(size, border) is Some {
        lemma_stroke_covers(translation, color, bottom_line(size, border).unwrap(), x, y);
    }
    if left_line(size, border) is Some {
        lemma_stroke_covers(translation, color, left_line(size, border).unwrap(), x, y);
    }
    if right_line(size, border) is Some {
        lemma_stroke_covers(translation, color, right_line(size, border).unwrap(), x, y);
    }
}

/// Every edge of a width above zero has one stroke and every other edge
/// none, in the order top, right, bottom, left, and each stroke is a
/// rectangle in the colour of the border.
pub proof fn lemma_border_stroke_for_each_edge(
    translation: Vec2,
    size: Vec2,
    color: Color,
    border: EdgeRect,
)
    ensures
        ({
            let lines = edge_lines(size, border);
            &&& border_strokes(translation, size, color, border) == border_edge(
                translation,
                color,
                lines.0,
            ) + border_edge(translation, color, lines.1) + border_edge(translation, color, lines.2)
                + border_edge(translation, color, lines.3)
            &&& border_edge(translation, color, lines.0).len() == edge_strokes(border.top)
            &&& border_edge(translation, color, lines.1).len() == edge_strokes(border.right)
            &&& border_edge(translation, color, lines.2).len() == edge_strokes(border.bottom)
            &&& border_edge(translation, color, lines.3).len() == edge_strokes(border.left)
        }),
        border_strokes(translation, size, color, border).len() == edge_strokes(border.top)
            + edge_strokes(border.right) + edge_strokes(border.bottom) + edge_strokes(border.left),
        forall|i: int|
            0 <= i < border_strokes(translation, size, color, border).len() ==> (
            #[trigger] border_strokes(translation, size, color, border)[i] matches PaintCommand::Rect {
                color: c,
                ..
            } && c == color),
{
    reveal(border_strokes);
    reveal(edge_lines);
}

/// No two strokes of one border share a point: the corners, too, are
/// covered once.
pub proof fn lemma_border_strokes_apart(
    translation: Vec2,
    size: Vec2,
    color: Color,
    border: EdgeRect,
    i: int,
    j: int,
    x: int,
    y: int,
)
    requires
        border_in_range(translation, size, border),
        0 <= i < j < border_strokes(translation, size, color, border).len(),
    ensures
        !(covers(border_strokes(translation, size, color, border)[i], x, y) && covers(
            border_strokes(translation, size, color, border)[j],
            x,
            y,
        )),
{
    reveal(border_strokes);
    lemma_border_edges_apart(translation, size, color, border, x, y);
    let lines = edge_lines(size, border);
    let top = border_edge(translation, color, lines.0);
    let right = border_edge(translation, color, lines.1);
    let bottom = border_edge(translation, color, lines.2);
    let left = border_edge(translation, color, lines.3);
    let all = border_strokes(translation, size, color, border);
    assert(all == top + right + bottom + left);
    assert(top.len() <= 1 && right.len() <= 1 && bottom.len() <= 1 && left.len() <= 1);
}

/// The command that sets `text` into the box at `translation`.
pub open spec fn text_command(translation: Vec2, size: Vec2, color: Color, text: Text)
    -> PaintCommand {
    PaintCommand::Text {
        text: text.text,
        font: text.font,
        font_size: text.font_size,
        position: Vec2 {
            x: sat(translation.x + text.h_align.offset(size.x as int)) as i32,
            y: sat(translation.y + text.v_align.offset(size.y as int)) as i32,
        },
        bounds: size,
        wrap: breaks_lines(text.text@),
        h_align: text.h_align,
        v_align: text.v_align,
        color,
    }
}

/// The rectangle that a line covers.
fn covered_rect(line: BorderLine) -> (rect: (Vec2, Vec2))
    ensures
        rect == line.covered(),
{
    proof {
        reveal(BorderLine::covered);
    }
    stroke_rect(line.start, line.to, line.width)
}

/// The upright line at `x`, as [`upright_line`] gives it.
fn upright(span_start: i64, span_end: i64, x: i32, width: i32, down: bool) -> (line: Option<
    BorderLine,
>)
    requires
        -0x1_0000_0000 <= span_start <= 0x1_0000_0000,
        -0x1_0000_0000 <= span_end <= 0x1_0000_0000,
    ensures
        line == ({
            let upper = span_start + width as int / 2;
            let lower = span_end - width as int / 2;
            if width > 0 && i32::MIN <= upper <= lower <= i32::MAX {
                let high = Vec2 { x, y: upper as i32 };
                let low = Vec2 { x, y: lower as i32 };
                if down {
                    Some(BorderLine { start: high, to: low, width })
                } else {
                    Some(BorderLine { start: low, to: high, width })
                }
            } else {
                None
            }
        }),
{
    let extent = half(width) as i64;
    let upper: i64 = span_start + extent;
    let lower: i64 = span_end - extent;
    if width > 0 && upper >= i32::MIN as i64 && upper <= lower && lower <= i32::MAX as i64 {
        let high = Vec2 { x, y: upper as i32 };
        let low = Vec2 { x, y: lower as i32 };
        if down {
            Some(BorderLine { start: high, to: low, width })
        } else {
            Some(BorderLine { start: low, to: high, width })
        }
    } else {
        None
    }
}

/// The lines of a border that the box has room for: along the top, the
/// right, the bottom and the left edge.
fn border_lines(size: Vec2, border: EdgeRect) -> (lines: (
    Option<BorderLine>,
    Option<BorderLine>,
    Option<BorderLine>,
    Option<BorderLine>,
))
    ensures
        lines.0 == top_line(size, border),
        lines.1 == right_line(size, border),
        lines.2 == bottom_line(size, border),
        lines.3 == left_line(size, border),
{
    let right_x = sat_sub(size.x, HALF_PIXEL);
    let bottom_y = sat_sub(size.y, HALF_PIXEL);
    let top = if border.top > 0 {
        Some(
            BorderLine {
                start: Vec2 { x: HALF_PIXEL, y: HALF_PIXEL },
                to: Vec2 { x: right_x, y: HALF_PIXEL },
                width: border.top,
            },
        )
    } else {
        None
    };
    let top_end: Option<i64> = match top {
        Some(line) => {
            let (position, extent) = covered_rect(line);
            Some(position.y as i64 + extent.y as i64)
        },
        None => None,
    };
    let low_line = BorderLine {
        start: Vec2 { x: right_x, y: bottom_y },
        to: Vec2 { x: HALF_PIXEL, y: bottom_y },
        width: border.bottom,
    };
    let (low_position, _) = covered_rect(low_line);
    let clear = match top_end {
        Some(end) => low_position.y as i64 >= end,
        None => true,
    };
    let bottom = if border.bottom > 0 && clear {
        Some(low_line)
    } else {
        None
    };
    let left_start: i64 = match top_end {
        Some(end) => end,
        None => HALF_PIXEL as i64 - half(border.left) as i64,
    };
    let left_end: i64 = match bottom {
        Some(_) => low_position.y as i64,
        None => bottom_y as i64 + half(border.left) as i64,
    };
    let left = upright(left_start, left_end, HALF_PIXEL, border.left, false);
    let right_start: i64 = match top_end {
        Some(end) => end,
        None => HALF_PIXEL as i64 - half(border.right) as i64,
    };
    let right_end: i64 = match bottom {
        Some(_) => low_position.y as i64,
        None => bottom_y as i64 + half(border.right) as i64,
    };
    let right = match upright(right_start, right_end, right_x, border.right, true) {
        Some(line) => {
            let apart = match left {
                Some(other) => {
                    let (position, _) = covered_rect(line);
                    let (beside, extent) = covered_rect(other);
                    position.x as i64 >= beside.x as i64 + extent.x as i64
                },
                None => true,
            };
            if apart {
                Some(line)
            } else {
                None
            }
        },
        None => None,
    };
    (top, right, bottom, left)
}

/// The line that is stroked for an edge, as [`edge_line`] gives it.
fn stroked_line(width: i32, fitting: Option<BorderLine>, corner: Vec2) -> (line: Option<BorderLine>)
    ensures
        line == edge_line(width, fitting, corner),
{
    if width <= 0 {
        None
    } else {
        match fitting {
            Some(line) => Some(line),
            None => Some(BorderLine { start: corner, to: corner, width: 0 }),
        }
    }
}

/// The lines that are stroked for the edges of a border, as
/// [`edge_lines`] gives them.
fn stroked_lines(size: Vec2, border: EdgeRect) -> (lines: (
    Option<BorderLine>,
    Option<BorderLine>,
    Option<BorderLine>,
    Option<BorderLine>,
))
    ensures
        lines == edge_lines(size, border),
{
    proof {
        reveal(edge_lines);
    }
    let fitting = border_lines(size, border);
    let right_x = sat_sub(size.x, HALF_PIXEL);
    let bottom_y = sat_sub(size.y, HALF_PIXEL);
    (
        stroked_line(border.top, fitting.0, Vec2 { x: HALF_PIXEL, y: HALF_PIXEL }),
        stroked_line(border.right, fitting.1, Vec2 { x: right_x, y: HALF_PIXEL }),
        stroked_line(border.bottom, fitting.2, Vec2 { x: right_x, y: bottom_y }),
        stroked_line(border.left, fitting.3, Vec2 { x: HALF_PIXEL, y: bottom_y }),
    )
}

/// Strokes a line of a border, if there is one.
fn draw_line(
    commands: &mut Vec<PaintCommand>,
    translation: Vec2,
    color: Color,
    line: Option<BorderLine>,
)
    ensures
        final(commands)@ == old(commands)@ + border_edge(translation, color, line),
{
    match line {
        Some(line) => {
            let mut path = PathBuilder::new(translation, color);
            path.move_to(line.start.x, line.start.y);
            path.set_line_width(line.width);
            path.line_to(commands, line.to.x, line.to.y);
            assert(commands@ =~= old(commands)@ + border_edge(translation, color, Some(line)));
        },
        None => {
            assert(commands@ =~= old(commands)@ + border_edge(translation, color, line));
        },
    }
}

/// A cursor for painting: a position, a box size and a colour, and the
/// commands issued so far.
pub struct GuiRenderer {
    pub commands: Vec<PaintCommand>,
    pub translation: Vec2,
    pub translation_stack: Vec<Vec2>,
    pub size: Vec2,
    pub color: Color,
}

impl GuiRenderer {
    /// A cursor at the origin that has painted nothing.
    pub fn new() -> (renderer: GuiRenderer)
        ensures
            renderer.commands@ == Seq::<PaintCommand>::empty(),
            renderer.translation == (Vec2 { x: 0, y: 0 }),
            renderer.translation_stack@ == Seq::<Vec2>::empty(),
            renderer.size == (Vec2 { x: 0, y: 0 }),
            renderer.color == Color::white(),
    {
        GuiRenderer {
            commands: Vec::new(),
            translation: Vec2 { x: 0, y: 0 },
            translation_stack: Vec::new(),
            size: Vec2 { x: 0, y: 0 },
            color: Color::white(),
        }
    }

    /// Remembers the position, to come back to it with `pop_translation`.
    pub fn push_translation(&mut self)
        ensures
            final(self).translation_stack@ == old(self).translation_stack@.push(
                old(self).translation,
            ),
            final(self).commands == old(self).commands,
            final(self).translation == old(self).translation,
            final(self).size == old(self).size,
            final(self).color == old(self).color,
    {
        self.translation_stack.push(self.translation);
    }

    /// Goes back to the position that was remembered last.
    pub fn pop_translation(&mut self)
        requires
            old(self).translation_stack@.len() > 0,
        ensures
            final(self).translation == old(self).translation_stack@.last(),
            final(self).translation_stack@ == old(self).translation_stack@.drop_last(),
            final(self).commands == old(self).commands,
            final(self).size == old(self).size,
            final(self).color == old(self).color,
    {
        let restored = self.translation_stack.pop();
        self.translation = restored.unwrap();
    }

    /// Moves the position.
    pub fn translate(&mut self, tx: i32, ty: i32)
        ensures
            final(self).translation == old(self).translation.plus(Vec2 { x: tx, y: ty }),
            final(self).translation_stack == old(self).translation_stack,
            final(self).commands == old(self).commands,
            final(self).size == old(self).size,
            final(self).color == old(self).color,
    {
        self.translation = self.translation.add(Vec2 { x: tx, y: ty });
    }

    pub fn position(&self) -> (position: Vec2)
        ensures
            position == self.translation,
    {
        self.translation
    }

    pub fn size(&self) -> (size: Vec2)
        ensures
            size == self.size,
    {
        self.size
    }

    pub fn set_size(&mut self, size: Vec2)
        ensures
            *final(self) == (GuiRenderer { size, ..*old(self) }),
    {
        self.size = size;
    }

    pub fn set_color(&mut self, color: Color)
        ensures
            *final(self) == (GuiRenderer { color, ..*old(self) }),
    {
        self.color = color;
    }

    /// Strokes the edges of the box: one stroke for each edge of a width
    /// above zero, clockwise from the top. The middle of each line runs half
    /// a pixel inside the box. The lines along the top and the bottom run
    /// from corner to corner, the lines along the left and the right between
    /// them, so that no corner is covered twice. An edge of width zero or
    /// less is left out; an edge that the box has no room for gets a stroke
    /// without extent.
    pub fn draw_border(&mut self, border: EdgeRect)
        ensures
            final(self).commands@ == old(self).commands@ + border_strokes(
                old(self).translation,
                old(self).size,
                old(self).color,
                border,
            ),
            final(self).commands@.len() == old(self).commands@.len() + edge_strokes(border.top)
                + edge_strokes(border.right) + edge_strokes(border.bottom) + edge_strokes(
                border.left,
            ),
            final(self).translation == old(self).translation,
            final(self).translation_stack == old(self).translation_stack,
            final(self).size == old(self).size,
            final(self).color == old(self).color,
    {
        proof {
            reveal(border_strokes);
            lemma_border_stroke_for_each_edge(self.translation, self.size, self.color, border);
        }
        let lines = stroked_lines(self.size, border);
        let ghost base = self.commands@;
        draw_line(&mut self.commands, self.translation, self.color, lines.0);
        draw_line(&mut self.commands, self.translation, self.color, lines.1);
        draw_line(&mut self.commands, self.translation, self.color, lines.2);
        draw_line(&mut self.commands, self.translation, self.color, lines.3);
        assert(self.commands@ =~= base + (border_edge(self.translation, self.color, lines.0)
            + border_edge(self.translation, self.color, lines.1) + border_edge(
            self.translation,
            self.color,
            lines.2,
        ) + border_edge(self.translation, self.color, lines.3)));
    }

    /// Fills the box.
    pub fn draw_rect(&mut self)
        ensures
            final(self).commands@ == old(self).commands@.push(
                PaintCommand::Rect {
                    position: old(self).translation,
                    size: old(self).size,
                    color: old(self).color,
                },
            ),
            final(self).translation == old(self).translation,
            final(self).translation_stack == old(self).translation_stack,
            final(self).size == old(self).size,
            final(self).color == old(self).color,
    {
        self.commands.push(
            PaintCommand::Rect { position: self.translation, size: self.size, color: self.color },
        );
    }

    /// Fills a rectangle given relative to the position.
    pub fn draw_rect_at(&mut self, point: Vec2, size: Vec2)
        ensures
            final(self).commands@ == old(self).commands@.push(
                PaintCommand::Rect {
                    position: old(self).translation.plus(point),
                    size,
                    color: old(self).color,
                },
            ),
            final(self).translation == old(self).translation,
            final(self).translation_stack == old(self).translation_stack,
            final(self).size == old(self).size,
            final(self).color == old(self).color,
    {
        self.commands.push(
            PaintCommand::Rect { position: self.translation.add(point), size, color: self.color },
        );
    }

    /// Sets the text into the box, pinned by its alignment; text with a line
    /// feed is broken into lines.
    pub fn draw_text(&mut self, text: &Text)
        ensures
            final(self).commands@ == old(self).commands@.push(
                text_command(old(self).translation, old(self).size, old(self).color, *text),
            ),
            final(self).translation == old(self).translation,
            final(self).translation_stack == old(self).translation_stack,
            final(self).size == old(self).size,
            final(self).color == old(self).color,
    {
        let wrap = has_line_break(text.text.as_str());
        let shift_x = match text.h_align {
            HorizontalAlign::Left => 0,
            HorizontalAlign::Center => half(self.size.x),
            HorizontalAlign::Right => self.size.x,
        };
        let shift_y = match text.v_align {
            VerticalAlign::Top => 0,
            VerticalAlign::Center => half(self.size.y),
            VerticalAlign::Bottom => self.size.y,
        };
        self.commands.push(
            PaintCommand::Text {
                text: text.text.clone(),
                font: text.font,
                font_size: text.font_size,
                position: Vec2 {
                    x: sat_add(self.translation.x, shift_x),
                    y: sat_add(self.translation.y, shift_y),
                },
                bounds: self.size,
                wrap,
                h_align: text.h_align,
                v_align: text.v_align,
                color: self.color,
            },
        );
    }

    /// Leaves the painting of the box to the widget of `node`.
    pub fn draw_foreground(&mut self, node: NodeId)
        ensures
            final(self).commands@ == old(self).commands@.push(
                PaintCommand::Foreground {
                    node,
                    position: old(self).translation,
                    size: old(self).size,
                },
            ),
            final(self).translation == old(self).translation,
            final(self).translation_stack == old(self).translation_stack,
            final(self).size == old(self).size,
            final(self).color == old(self).color,
    {
        self.commands.push(
            PaintCommand::Foreground { node, position: self.translation, size: self.size },
        );
    }
}

/// The six colours of a plain widget skin.
#[derive(Clone, Copy, PartialEq, Eq, Debug, Structural)]
pub struct SimpleColors {
    pub bg_normal: Color,
    pub bg_hover: Color,
    pub bg_press: Color,
    pub bg_disable: Color,
    pub fg_normal: Color,
    pub fg_disable: Color,
}

impl SimpleColors {
    /// The background of a widget: by pointer state while it is enabled,
    /// the disabled colour otherwise.
    pub open spec fn spec_background(&self, enabled: bool, state: PointerState) -> Color {
        if enabled {
            match state {
                PointerState::Idle => self.bg_normal,
                PointerState::Over => self.bg_hover,
                PointerState::Press => self.bg_press,
            }
        } else {
            self.bg_disable
        }
    }

    #[verifier::when_used_as_spec(spec_background)]
    pub fn background(&self, enabled: bool, state: PointerState) -> (color: Color)
        ensures
            color == self.spec_background(enabled, state),
    {
        if enabled {
            match state {
                PointerState::Idle => self.bg_normal,
                PointerState::Over => self.bg_hover,
                PointerState::Press => self.bg_press,
            }
        } else {
            self.bg_disable
        }
    }

    pub open spec fn spec_foreground(&self, enabled: bool) -> Color {
        if enabled {
            self.fg_normal
        } else {
            self.fg_disable
        }
    }

    #[verifier::when_used_as_spec(spec_foreground)]
    pub fn foreground(&self, enabled: bool) -> (color: Color)
        ensures
            color == self.spec_foreground(enabled),
    {
        if enabled {
            self.fg_normal
        } else {
            self.fg_disable
        }
    }

    /// Greys: three backgrounds that lighten from rest to press, a light
    /// foreground, and half-transparent versions of both for disabled widgets.
    pub open spec fn greys() -> SimpleColors {
        SimpleColors {
            bg_normal: Color { r: 55, g: 55, b: 55, a: 255 },
            bg_hover: Color { r: 71, g: 71, b: 71, a: 255 },
            bg_press: Color { r: 87, g: 87, b: 87, a: 255 },
            bg_disable: Color { r: 55, g: 55, b: 55, a: 128 },
            fg_normal: Color { r: 231, g: 231, b: 231, a: 255 },
            fg_disable: Color { r: 231, g: 231, b: 231, a: 128 },
        }
    }
}

impl Default for SimpleColors {
    fn default() -> (colors: SimpleColors)
        ensures
            colors == SimpleColors::greys(),
    {
        SimpleColors {
            bg_normal: Color { r: 55, g: 55, b: 55, a: 255 },
            bg_hover: Color { r: 71, g: 71, b: 71, a: 255 },
            bg_press: Color { r: 87, g: 87, b: 87, a: 255 },
            bg_disable: Color { r: 55, g: 55, b: 55, a: 128 },
            fg_normal: Color { r: 231, g: 231, b: 231, a: 255 },
            fg_disable: Color { r: 231, g: 231, b: 231, a: 128 },
        }
    }
}

} // verus!
