//! Integer helper of the high-resolution monochrome renderer: neighbourhood
//! coordinates clamped to the frame.
use vstd::prelude::*;

verus! {

/// `value` clamped to `0 ..= limit - 1`, where the limit is taken as an `i32`.
pub open spec fn clamped_coord(value: i32, limit: usize) -> int {
    let high = (limit as i32) - 1;
    if value < 0 {
        0
    } else if value > high {
        high
    } else {
        value as int
    }
}

/// Clamps a neighbour coordinate into the frame.
pub fn clamp_coord(value: i32, limit: usize) -> (c: usize)
    requires
        (limit as i32) >= 1,
    ensures
        c == clamped_coord(value, limit),
{
    let high: i32 = limit as i32 - 1;
    if value < 0 {
        0
    } else if value > high {
        high as usize
    } else {
        value as usize
    }
}

} // verus!
