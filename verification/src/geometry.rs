//! Points, rectangles and durations in fixed-point coordinates.

use vstd::prelude::*;
use crate::fixed::{fits, Fixed, ONE};

verus! {

/// A point or a displacement in the plane, on the screen (x to the right, y
/// upwards, in pixels) or in musical space (x in measures, y in pitch steps).
#[derive(Clone, Copy, Debug, PartialEq, Eq, Structural)]
pub struct Vector2 {
    pub x: Fixed,
    pub y: Fixed,
}

impl Vector2 {
    pub fn new(x: Fixed, y: Fixed) -> (v: Vector2)
        ensures
            v.x == x,
            v.y == y,
    {
        Vector2 { x, y }
    }
}

/// The smaller of two integers.
pub open spec fn min(a: int, b: int) -> int {
    if a <= b {
        a
    } else {
        b
    }
}

/// The larger of two integers.
pub open spec fn max(a: int, b: int) -> int {
    if a >= b {
        a
    } else {
        b
    }
}

/// The rectangle spanned by two free corners, as its lower-left and its
/// upper-right corner.
pub open spec fn normalized(a: Vector2, b: Vector2) -> (Vector2, Vector2) {
    (
        Vector2 { x: min(a.x as int, b.x as int) as i64, y: min(a.y as int, b.y as int) as i64 },
        Vector2 { x: max(a.x as int, b.x as int) as i64, y: max(a.y as int, b.y as int) as i64 },
    )
}

/// Whether the open rectangles `(a0, a1)` and `(b0, b1)`, each given by its
/// lower and upper bound on both axes, have a point in common.  Rectangles
/// that only touch along an edge do not overlap.
pub open spec fn overlap(
    a0x: int,
    a0y: int,
    a1x: int,
    a1y: int,
    b0x: int,
    b0y: int,
    b1x: int,
    b1y: int,
) -> bool {
    a0x < b1x && a1x > b0x && a0y < b1y && a1y > b0y
}

/// The fixed-point number of seconds in a duration of `seconds` whole seconds
/// and `nanos` nanoseconds, rounded down.
pub open spec fn seconds_of(seconds: u64, nanos: u32) -> int {
    ((seconds * 1_000_000_000 + nanos) * ONE) / 1_000_000_000
}

/// Sorts two free corners into the lower-left and the upper-right corner of
/// the rectangle that they span.
pub fn normalize_square(a: Vector2, b: Vector2) -> (r: (Vector2, Vector2))
    ensures
        r == normalized(a, b),
{
    let x0: Fixed = if a.x <= b.x { a.x } else { b.x };
    let x1: Fixed = if a.x >= b.x { a.x } else { b.x };
    let y0: Fixed = if a.y <= b.y { a.y } else { b.y };
    let y1: Fixed = if a.y >= b.y { a.y } else { b.y };
    (Vector2 { x: x0, y: y0 }, Vector2 { x: x1, y: y1 })
}

/// Tests two normalized rectangles for overlap; touching edges do not count.
pub fn rects_overlap(a0: Vector2, a1: Vector2, b0: Vector2, b1: Vector2) -> (r: bool)
    ensures
        r == overlap(
            a0.x as int,
            a0.y as int,
            a1.x as int,
            a1.y as int,
            b0.x as int,
            b0.y as int,
            b1.x as int,
            b1.y as int,
        ),
{
    a0.x < b1.x && a1.x > b0.x && a0.y < b1.y && a1.y > b0.y
}

/// A duration as a fixed-point number of seconds, rounded down; `None` where
/// that number is too large for a `Fixed`.
pub fn duration_seconds(seconds: u64, nanos: u32) -> (r: Option<Fixed>)
    ensures
        r == (if fits(seconds_of(seconds, nanos)) {
            Some(seconds_of(seconds, nanos) as i64)
        } else {
            None
        }),
{
    let total: u128 = (seconds as u128) * 1_000_000_000 + (nanos as u128);
    let scaled: u128 = total * 65536;
    let q: u128 = scaled / 1_000_000_000;
    if q > i64::MAX as u128 {
        None
    } else {
        Some(q as i64)
    }
}

} // verus!
