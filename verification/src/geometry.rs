//! Fixed-point plane geometry shared by every subsystem.
//!
//! A coordinate is an `i64` number of milliunits (one thousandth of a world
//! unit); a duration is an `i64` number of milliseconds. A speed given in
//! world units per second is therefore the same number in milliunits per
//! millisecond, so advancing a position is a single multiplication with no
//! rounding.

use vstd::prelude::*;

verus! {

/// Largest coordinate magnitude the library works with, in milliunits
/// (one million world units). This is a machine limit: it keeps every
/// per-frame sum and every squared distance inside `i64`.
pub const MAX_COORD: i64 = 1_000_000_000;

/// Largest elapsed time accepted for one frame, in milliseconds.
pub const MAX_DT: i64 = 60_000;

/// Largest projectile speed magnitude, in milliunits per millisecond.
pub const MAX_SPEED: i64 = 1_000;

/// Largest boundary-overshoot magnitude carried between the two formation
/// phases, in milliunits.
pub const MAX_OVERSHOOT: i64 = 4_000_000_000;

/// A point of the plane in milliunits. The hosting renderer works in 3D with
/// z fixed at zero, so two coordinates carry the whole state.
#[derive(Clone, Copy, PartialEq, Eq, Structural, Debug)]
pub struct Vec2i {
    pub x: i64,
    pub y: i64,
}

/// Magnitude of an integer.
pub open spec fn iabs(v: int) -> int {
    if v < 0 {
        -v
    } else {
        v
    }
}

/// Both coordinates of `v` are within the machine limit.
pub open spec fn in_range(v: Vec2i) -> bool {
    &&& iabs(v.x as int) <= MAX_COORD
    &&& iabs(v.y as int) <= MAX_COORD
}

impl Vec2i {
    /// Builds a point from its two coordinates.
    pub fn new(x: i64, y: i64) -> (r: Vec2i)
        ensures
            r.x == x,
            r.y == y,
    {
        Vec2i { x, y }
    }
}

} // verus!
