use vstd::prelude::*;

verus! {

/// Units of a coordinate in one pixel: coordinates are thousandths of a pixel.
pub const UNITS_PER_PIXEL: i64 = 1000;

/// A point of the play-field in thousandths of a pixel, x growing to the
/// right and y growing upwards. For a sprite it is the centre of its box.
#[derive(Clone, Copy, Debug, PartialEq, Eq, Structural)]
pub struct Position {
    pub x: i32,
    pub y: i32,
}

impl Position {
    /// The point (`x`, `y`), in thousandths of a pixel.
    pub fn new(x: i32, y: i32) -> (p: Position)
        ensures
            p.x == x,
            p.y == y,
    {
        Position { x, y }
    }
}

/// The whole pixel at or below `v` units (rounding towards minus infinity).
pub open spec fn floor_pixels(v: int) -> int {
    v / (UNITS_PER_PIXEL as int)
}

/// The whole pixel at or above `v` units (rounding towards plus infinity).
pub open spec fn ceil_pixels(v: int) -> int {
    -((-v) / (UNITS_PER_PIXEL as int))
}

/// The whole pixel of `v` units rounded towards zero.
pub open spec fn trunc_pixels(v: int) -> int {
    if v >= 0 {
        floor_pixels(v)
    } else {
        ceil_pixels(v)
    }
}

/// `floor_pixels`, computed.
pub fn floor_to_pixel(v: i64) -> (r: i64)
    requires
        v > i64::MIN,
    ensures
        r == floor_pixels(v as int),
{
    if v >= 0 {
        (v as u64 / 1000) as i64
    } else {
        let m = (-v) as u64;
        -(((m - 1) / 1000 + 1) as i64)
    }
}

/// `ceil_pixels`, computed.
pub fn ceil_to_pixel(v: i64) -> (r: i64)
    requires
        v > i64::MIN,
    ensures
        r == ceil_pixels(v as int),
{
    if v > 0 {
        ((v as u64 - 1) / 1000 + 1) as i64
    } else {
        -(((-v) as u64 / 1000) as i64)
    }
}

/// `trunc_pixels`, computed.
pub fn trunc_to_pixel(v: i64) -> (r: i64)
    requires
        v > i64::MIN,
    ensures
        r == trunc_pixels(v as int),
{
    if v >= 0 {
        floor_to_pixel(v)
    } else {
        ceil_to_pixel(v)
    }
}

} // verus!
