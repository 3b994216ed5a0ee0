//! Plane geometry in whole numbers.
//!
//! A [`Rect`] is measured in units (see [`crate::units`]), an [`IRect`] in
//! whole pixels. Sums that leave the range of `i32` stop at its ends.

use vstd::prelude::*;
use crate::units::{sat, sat_add, sat_sub, half, to_units, saturate};

verus! {

/// One of nine reference points of a rectangle.
#[derive(Clone, Copy, PartialEq, Eq, Debug, Structural)]
pub enum Anchor {
    TopLeft,
    TopCenter,
    TopRight,
    MiddleLeft,
    Center,
    MiddleRight,
    BottomLeft,
    BottomCenter,
    BottomRight,
}

impl Anchor {
    /// How far the anchor lies to the right of the left edge of a
    /// rectangle of the given width.
    pub open spec fn offset_x(self, width: int) -> int {
        match self {
            Anchor::TopLeft | Anchor::MiddleLeft | Anchor::BottomLeft => 0,
            Anchor::TopCenter | Anchor::Center | Anchor::BottomCenter => width / 2,
            Anchor::TopRight | Anchor::MiddleRight | Anchor::BottomRight => width,
        }
    }

    /// How far the anchor lies below the top edge of a rectangle of the
    /// given height.
    pub open spec fn offset_y(self, height: int) -> int {
        match self {
            Anchor::TopLeft | Anchor::TopCenter | Anchor::TopRight => 0,
            Anchor::MiddleLeft | Anchor::Center | Anchor::MiddleRight => height / 2,
            Anchor::BottomLeft | Anchor::BottomCenter | Anchor::BottomRight => height,
        }
    }

    fn shift_x(self, width: i32) -> (r: i32)
        ensures
            r == self.offset_x(width as int),
    {
        match self {
            Anchor::TopLeft | Anchor::MiddleLeft | Anchor::BottomLeft => 0,
            Anchor::TopCenter | Anchor::Center | Anchor::BottomCenter => half(width),
            Anchor::TopRight | Anchor::MiddleRight | Anchor::BottomRight => width,
        }
    }

    fn shift_y(self, height: i32) -> (r: i32)
        ensures
            r == self.offset_y(height as int),
    {
        match self {
            Anchor::TopLeft | Anchor::TopCenter | Anchor::TopRight => 0,
            Anchor::MiddleLeft | Anchor::Center | Anchor::MiddleRight => half(height),
            Anchor::BottomLeft | Anchor::BottomCenter | Anchor::BottomRight => height,
        }
    }
}

/// A pair of coordinates or of extents.
#[derive(Clone, Copy, PartialEq, Eq, Debug, Structural)]
pub struct Vec2 {
    pub x: i32,
    pub y: i32,
}

impl Vec2 {
    pub fn new(x: i32, y: i32) -> (v: Vec2)
        ensures
            v == (Vec2 { x, y }),
    {
        Vec2 { x, y }
    }

    /// Component-wise sum.
    pub open spec fn plus(self, other: Vec2) -> Vec2 {
        Vec2 { x: sat(self.x + other.x) as i32, y: sat(self.y + other.y) as i32 }
    }

    /// Component-wise difference.
    pub open spec fn minus(self, other: Vec2) -> Vec2 {
        Vec2 { x: sat(self.x - other.x) as i32, y: sat(self.y - other.y) as i32 }
    }

    pub fn add(self, other: Vec2) -> (v: Vec2)
        ensures
            v == self.plus(other),
    {
        Vec2 { x: sat_add(self.x, other.x), y: sat_add(self.y, other.y) }
    }

    pub fn sub(self, other: Vec2) -> (v: Vec2)
        ensures
            v == self.minus(other),
    {
        Vec2 { x: sat_sub(self.x, other.x), y: sat_sub(self.y, other.y) }
    }
}

/// The whole pixels in a length in units, rounded towards zero.
pub open spec fn trunc_px(v: int) -> int {
    if v >= 0 {
        v / 64
    } else {
        -((-v) / 64)
    }
}

/// One whole number by another that is not zero, rounded towards zero.
pub open spec fn quotient(a: int, b: int) -> int {
    let q = abs(a) / abs(b);
    if (a < 0) == (b < 0) {
        q
    } else {
        -q
    }
}

/// The distance of a number from zero.
pub open spec fn abs(v: int) -> int {
    if v < 0 {
        -v
    } else {
        v
    }
}

/// Half of a whole number, rounded towards zero.
pub open spec fn trunc_half(v: int) -> int {
    if v >= 0 {
        v / 2
    } else {
        -((-v) / 2)
    }
}

fn truncate_to_pixels(v: i32) -> (r: i32)
    ensures
        r == trunc_px(v as int),
{
    if v >= 0 {
        v / 64
    } else {
        let up: i64 = -(v as i64);
        (-(up / 64)) as i32
    }
}

fn truncate_half(v: i32) -> (r: i32)
    ensures
        r == trunc_half(v as int),
{
    if v >= 0 {
        v / 2
    } else {
        let up: i64 = -(v as i64);
        (-(up / 2)) as i32
    }
}

/// A rectangle in units: the position of its top left corner, and its size.
#[derive(Clone, Copy, PartialEq, Eq, Debug, Structural)]
pub struct Rect {
    pub position: Vec2,
    pub size: Vec2,
}

impl Rect {
    pub fn new(x: i32, y: i32, width: i32, height: i32) -> (rect: Rect)
        ensures
            rect == (Rect { position: Vec2 { x, y }, size: Vec2 { x: width, y: height } }),
    {
        Rect { position: Vec2 { x, y }, size: Vec2 { x: width, y: height } }
    }

    /// The rectangle without extent at the origin.
    pub fn zero() -> (rect: Rect)
        ensures
            rect == (Rect { position: Vec2 { x: 0, y: 0 }, size: Vec2 { x: 0, y: 0 } }),
    {
        Rect::new(0, 0, 0, 0)
    }

    /// The rectangle that covers one pixel at the origin.
    pub fn one() -> (rect: Rect)
        ensures
            rect == (Rect { position: Vec2 { x: 0, y: 0 }, size: Vec2 { x: 64, y: 64 } }),
    {
        Rect::new(0, 0, 64, 64)
    }

    pub fn from_size(size: Vec2) -> (rect: Rect)
        ensures
            rect == (Rect { position: Vec2 { x: 0, y: 0 }, size }),
    {
        Rect { position: Vec2 { x: 0, y: 0 }, size }
    }

    /// The point of the rectangle that `anchor` names.
    pub open spec fn anchor_point(self, anchor: Anchor) -> Vec2 {
        Vec2 {
            x: sat(self.position.x + anchor.offset_x(self.size.x as int)) as i32,
            y: sat(self.position.y + anchor.offset_y(self.size.y as int)) as i32,
        }
    }

    /// The rectangle of the given size whose `anchor` lies at `anchor_pos`.
    pub fn from_anchor(size: Vec2, anchor: Anchor, anchor_pos: Vec2) -> (rect: Rect)
        ensures
            rect.size == size,
            rect.position.x == sat(anchor_pos.x - anchor.offset_x(size.x as int)),
            rect.position.y == sat(anchor_pos.y - anchor.offset_y(size.y as int)),
    {
        Rect {
            position: Vec2 {
                x: sat_sub(anchor_pos.x, anchor.shift_x(size.x)),
                y: sat_sub(anchor_pos.y, anchor.shift_y(size.y)),
            },
            size,
        }
    }

    pub fn x(&self) -> (x: i32)
        ensures
            x == self.position.x,
    {
        self.position.x
    }

    pub fn y(&self) -> (y: i32)
        ensures
            y == self.position.y,
    {
        self.position.y
    }

    pub fn width(&self) -> (width: i32)
        ensures
            width == self.size.x,
    {
        self.size.x
    }

    pub fn height(&self) -> (height: i32)
        ensures
            height == self.size.y,
    {
        self.size.y
    }

    /// Width by height in parts of 64, rounded towards zero; a rectangle
    /// without height has no aspect.
    pub fn aspect(&self) -> (ratio: Option<i32>)
        ensures
            self.size.y == 0 ==> ratio is None,
            self.size.y != 0 ==> ratio == Some(
                sat(quotient(self.size.x as int * 64, self.size.y as int)) as i32,
            ),
    {
        if self.size.y == 0 {
            return None;
        }
        let width: i64 = self.size.x as i64 * 64;
        let height: i64 = self.size.y as i64;
        let over: i64 = if width < 0 {
            -width
        } else {
            width
        };
        let under: i64 = if height < 0 {
            -height
        } else {
            height
        };
        let q: i64 = over / under;
        if (width < 0) == (height < 0) {
            Some(saturate(q))
        } else {
            Some(saturate(-q))
        }
    }

    pub fn get_anchor(&self, anchor: Anchor) -> (point: Vec2)
        ensures
            point == self.anchor_point(anchor),
    {
        Vec2 {
            x: sat_add(self.position.x, anchor.shift_x(self.size.x)),
            y: sat_add(self.position.y, anchor.shift_y(self.size.y)),
        }
    }

    /// Half-open containment: the left and top edges belong to the
    /// rectangle, the right and bottom edges do not.
    pub open spec fn spec_contains(&self, position: Vec2) -> bool {
        &&& self.position.x <= position.x < self.position.x + self.size.x
        &&& self.position.y <= position.y < self.position.y + self.size.y
    }

    #[verifier::when_used_as_spec(spec_contains)]
    pub fn contains(&self, position: Vec2) -> (inside: bool)
        ensures
            inside == self.spec_contains(position),
    {
        position.x >= self.position.x && (position.x as i64) < self.position.x as i64
            + self.size.x as i64 && position.y >= self.position.y && (position.y as i64)
            < self.position.y as i64 + self.size.y as i64
    }

    /// The rectangle with every edge moved outwards by `amount`.
    pub open spec fn grown(self, amount: int) -> Rect {
        Rect {
            position: Vec2 {
                x: sat(self.position.x - amount) as i32,
                y: sat(self.position.y - amount) as i32,
            },
            size: Vec2 {
                x: sat(self.size.x + 2 * amount) as i32,
                y: sat(self.size.y + 2 * amount) as i32,
            },
        }
    }

    pub fn grow(self, amount: i32) -> (rect: Rect)
        ensures
            rect == self.grown(amount as int),
    {
        Rect {
            position: Vec2 {
                x: sat_sub(self.position.x, amount),
                y: sat_sub(self.position.y, amount),
            },
            size: Vec2 {
                x: saturate(self.size.x as i64 + 2 * (amount as i64)),
                y: saturate(self.size.y as i64 + 2 * (amount as i64)),
            },
        }
    }

    /// The rectangle with every edge moved inwards by `amount`.
    pub fn shrink(self, amount: i32) -> (rect: Rect)
        ensures
            rect == self.grown(-(amount as int)),
    {
        Rect {
            position: Vec2 {
                x: saturate(self.position.x as i64 + amount as i64),
                y: saturate(self.position.y as i64 + amount as i64),
            },
            size: Vec2 {
                x: saturate(self.size.x as i64 - 2 * (amount as i64)),
                y: saturate(self.size.y as i64 - 2 * (amount as i64)),
            },
        }
    }

    /// The rectangle in whole pixels, each measure rounded towards zero.
    pub fn as_irect(&self) -> (rect: IRect)
        ensures
            rect.position.x == trunc_px(self.position.x as int),
            rect.position.y == trunc_px(self.position.y as int),
            rect.size.x == trunc_px(self.size.x as int),
            rect.size.y == trunc_px(self.size.y as int),
    {
        IRect {
            position: Vec2 {
                x: truncate_to_pixels(self.position.x),
                y: truncate_to_pixels(self.position.y),
            },
            size: Vec2 { x: truncate_to_pixels(self.size.x), y: truncate_to_pixels(self.size.y) },
        }
    }
}

/// A rectangle in whole pixels.
#[derive(Clone, Copy, PartialEq, Eq, Debug, Structural)]
pub struct IRect {
    pub position: Vec2,
    pub size: Vec2,
}

impl IRect {
    pub fn new(x: i32, y: i32, width: i32, height: i32) -> (rect: IRect)
        ensures
            rect == (IRect { position: Vec2 { x, y }, size: Vec2 { x: width, y: height } }),
    {
        IRect { position: Vec2 { x, y }, size: Vec2 { x: width, y: height } }
    }

    pub fn zero() -> (rect: IRect)
        ensures
            rect == (IRect { position: Vec2 { x: 0, y: 0 }, size: Vec2 { x: 0, y: 0 } }),
    {
        IRect::new(0, 0, 0, 0)
    }

    pub fn from_size(size: Vec2) -> (rect: IRect)
        ensures
            rect == (IRect { position: Vec2 { x: 0, y: 0 }, size }),
    {
        IRect { position: Vec2 { x: 0, y: 0 }, size }
    }

    pub fn x(&self) -> (x: i32)
        ensures
            x == self.position.x,
    {
        self.position.x
    }

    pub fn y(&self) -> (y: i32)
        ensures
            y == self.position.y,
    {
        self.position.y
    }

    pub fn width(&self) -> (width: i32)
        ensures
            width == self.size.x,
    {
        self.size.x
    }

    pub fn height(&self) -> (height: i32)
        ensures
            height == self.size.y,
    {
        self.size.y
    }

    /// The middle of the rectangle; an odd extent gives up its half pixel.
    pub fn center(&self) -> (point: Vec2)
        ensures
            point.x == sat(self.position.x + trunc_half(self.size.x as int)),
            point.y == sat(self.position.y + trunc_half(self.size.y as int)),
    {
        Vec2 {
            x: sat_add(self.position.x, truncate_half(self.size.x)),
            y: sat_add(self.position.y, truncate_half(self.size.y)),
        }
    }

    /// Half-open containment, as for [`Rect`].
    pub open spec fn spec_contains(&self, point: Vec2) -> bool {
        &&& self.position.x <= point.x < self.position.x + self.size.x
        &&& self.position.y <= point.y < self.position.y + self.size.y
    }

    #[verifier::when_used_as_spec(spec_contains)]
    pub fn contains(&self, point: Vec2) -> (inside: bool)
        ensures
            inside == self.spec_contains(point),
    {
        self.position.x <= point.x && self.position.y <= point.y && self.position.x as i64
            + self.size.x as i64 > point.x as i64 && self.position.y as i64 + self.size.y as i64
            > point.y as i64
    }

    /// The rectangle that is left inside the given insets.
    pub fn inset(&self, insets: EdgeRect) -> (rect: IRect)
        ensures
            rect.position.x == sat(self.position.x + insets.left),
            rect.position.y == sat(self.position.y + insets.top),
            rect.size.x == sat(self.size.x - (insets.left + insets.right)),
            rect.size.y == sat(self.size.y - (insets.top + insets.bottom)),
    {
        IRect {
            position: Vec2 {
                x: sat_add(self.position.x, insets.left),
                y: sat_add(self.position.y, insets.top),
            },
            size: Vec2 {
                x: saturate(self.size.x as i64 - (insets.left as i64 + insets.right as i64)),
                y: saturate(self.size.y as i64 - (insets.top as i64 + insets.bottom as i64)),
            },
        }
    }

    /// Position plus position, size plus size.
    pub fn add_components(&self, other: IRect) -> (rect: IRect)
        ensures
            rect.position == self.position.plus(other.position),
            rect.size == self.size.plus(other.size),
    {
        IRect { position: self.position.add(other.position), size: self.size.add(other.size) }
    }

    /// The rectangle in units.
    pub fn as_rect(&self) -> (rect: Rect)
        ensures
            rect.position.x == sat(self.position.x * 64),
            rect.position.y == sat(self.position.y * 64),
            rect.size.x == sat(self.size.x * 64),
            rect.size.y == sat(self.size.y * 64),
    {
        Rect {
            position: Vec2 { x: to_units(self.position.x), y: to_units(self.position.y) },
            size: Vec2 { x: to_units(self.size.x), y: to_units(self.size.y) },
        }
    }
}

/// Four edge measures, in the order of a clock: top, right, bottom, left.
#[derive(Clone, Copy, PartialEq, Eq, Debug, Structural)]
pub struct EdgeRect {
    pub top: i32,
    pub right: i32,
    pub bottom: i32,
    pub left: i32,
}

impl EdgeRect {
    pub fn new(top: i32, right: i32, bottom: i32, left: i32) -> (edges: EdgeRect)
        ensures
            edges == (EdgeRect { top, right, bottom, left }),
    {
        EdgeRect { top, right, bottom, left }
    }

    /// No measure on any edge.
    pub fn zero() -> (edges: EdgeRect)
        ensures
            edges == (EdgeRect { top: 0, right: 0, bottom: 0, left: 0 }),
    {
        EdgeRect { top: 0, right: 0, bottom: 0, left: 0 }
    }

    /// The same measure on all four edges.
    pub fn splat(v: i32) -> (edges: EdgeRect)
        ensures
            edges == (EdgeRect { top: v, right: v, bottom: v, left: v }),
    {
        EdgeRect { top: v, right: v, bottom: v, left: v }
    }
}

/// Where nothing saturates, the anchor of a rectangle built from an anchor
/// is the point it was built from.
pub proof fn lemma_anchor_round_trip(size: Vec2, anchor: Anchor, anchor_pos: Vec2)
    requires
        size.x >= 0,
        size.y >= 0,
        anchor_pos.x - size.x >= i32::MIN,
        anchor_pos.y - size.y >= i32::MIN,
    ensures
        ({
            let rect = Rect {
                position: Vec2 {
                    x: sat(anchor_pos.x - anchor.offset_x(size.x as int)) as i32,
                    y: sat(anchor_pos.y - anchor.offset_y(size.y as int)) as i32,
                },
                size,
            };
            rect.anchor_point(anchor) == anchor_pos
        }),
{
}

} // verus!
