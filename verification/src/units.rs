//! Lengths in sixty-fourths of a pixel, with arithmetic that saturates.
//!
//! Positions and sizes that are painted are `i32` counts of units, 64 to the
//! pixel, so that half pixels and scaled lengths have a place. Sums and
//! products that leave the range of `i32` stop at its ends.

use vstd::prelude::*;

verus! {

/// Units in one pixel.
pub const UNITS_PER_PIXEL: i32 = 64;

/// The nearest value that an `i32` can hold.
pub open spec fn sat(v: int) -> int {
    if v < i32::MIN {
        i32::MIN as int
    } else if v > i32::MAX {
        i32::MAX as int
    } else {
        v
    }
}

/// The whole pixel below a length, in units.
pub open spec fn floor_px(v: int) -> int {
    (v / 64) * 64
}

/// The nearest whole pixel, in units; halves go away from zero.
pub open spec fn round_px(v: int) -> int {
    if v >= 0 {
        ((v + 32) / 64) * 64
    } else {
        -(((32 - v) / 64) * 64)
    }
}

/// A length times a factor that is itself in units (64 is one).
pub open spec fn scaled(v: int, factor: int) -> int {
    (v * factor) / 64
}

pub fn saturate(v: i64) -> (r: i32)
    ensures
        r == sat(v as int),
{
    if v < i32::MIN as i64 {
        i32::MIN
    } else if v > i32::MAX as i64 {
        i32::MAX
    } else {
        v as i32
    }
}

pub fn sat_add(a: i32, b: i32) -> (r: i32)
    ensures
        r == sat(a + b),
{
    saturate(a as i64 + b as i64)
}

pub fn sat_sub(a: i32, b: i32) -> (r: i32)
    ensures
        r == sat(a - b),
{
    saturate(a as i64 - b as i64)
}

/// Half of a length, rounded down.
pub fn half(v: i32) -> (r: i32)
    ensures
        r == v as int / 2,
{
    if v >= 0 {
        v / 2
    } else {
        let up: i64 = -(v as i64 + 1);
        let q: i64 = up / 2;
        (-q - 1) as i32
    }
}

/// A quarter of a length, rounded down.
pub fn quarter(v: i32) -> (r: i32)
    ensures
        r == v as int / 4,
{
    if v >= 0 {
        v / 4
    } else {
        let up: i64 = -(v as i64 + 1);
        let q: i64 = up / 4;
        (-q - 1) as i32
    }
}

/// Three quarters of a length, rounded down.
pub fn three_quarters(v: i32) -> (r: i32)
    ensures
        r == (3 * v) / 4,
{
    let tripled: i64 = 3 * (v as i64);
    if tripled >= 0 {
        (tripled / 4) as i32
    } else {
        let up: i64 = -(tripled + 1);
        let q: i64 = up / 4;
        (-q - 1) as i32
    }
}

fn floor_div_64(v: i64) -> (q: i64)
    ensures
        q == v as int / 64,
{
    if v >= 0 {
        v / 64
    } else {
        let up: i64 = -(v + 1);
        -(up / 64) - 1
    }
}

/// Whole pixels as units.
pub fn to_units(pixels: i32) -> (r: i32)
    ensures
        r == sat(pixels * 64),
{
    saturate(pixels as i64 * 64)
}

/// The whole pixels in a length, rounded down.
pub fn to_pixels(units: i32) -> (r: i32)
    ensures
        r == units as int / 64,
{
    floor_div_64(units as i64) as i32
}

/// Scales a length by a factor in units.
pub fn scale(v: i32, factor: i32) -> (r: i32)
    ensures
        r == sat(scaled(v as int, factor as int)),
{
    assert(-0x4000_0000_0000_0000 <= (v as int) * (factor as int) <= 0x4000_0000_0000_0000)
        by (nonlinear_arith)
        requires
            -0x8000_0000 <= v <= 0x7fff_ffff,
            -0x8000_0000 <= factor <= 0x7fff_ffff,
    ;
    let product: i64 = (v as i64) * (factor as i64);
    saturate(floor_div_64(product))
}

/// Snaps a position to the nearest whole pixel.
pub fn round_to_pixel(v: i32) -> (r: i32)
    ensures
        r == sat(round_px(v as int)),
{
    if v >= 0 {
        saturate(floor_div_64(v as i64 + 32) * 64)
    } else {
        saturate(-(floor_div_64(32 - v as i64) * 64))
    }
}

/// Cuts a size down to whole pixels.
pub fn floor_to_pixel(v: i32) -> (r: i32)
    ensures
        r == floor_px(v as int),
{
    (floor_div_64(v as i64) * 64) as i32
}

/// A box whose position is rounded and whose size is cut down never reaches
/// past the rounded far edge of the box it came from.
pub proof fn lemma_snap_no_overdraw(position: int, size: int)
    requires
        size >= 0,
    ensures
        round_px(position) + floor_px(size) <= round_px(position + size),
{
}

/// Rounding a position moves it by at most half a pixel.
pub proof fn lemma_round_px_near(v: int)
    ensures
        -32 <= round_px(v) - v <= 32,
{
}

} // verus!
