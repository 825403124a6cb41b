//! Grid-to-pixel coordinate conversion for the rendering adapter. The
//! drawing itself is done outside the library; only the coordinate
//! arithmetic lives here.

use vstd::prelude::*;

verus! {

/// Side length of one grid cell in pixels.
pub const BLOCK_SIZE: u32 = 25;

/// The pixel offset of grid coordinate `c`: `BLOCK_SIZE` pixels per cell,
/// saturating at the `u32` bounds (negative coordinates map to 0).
pub open spec fn to_coord_spec(c: int) -> int {
    if c <= 0 {
        0
    } else if c * BLOCK_SIZE > u32::MAX {
        u32::MAX as int
    } else {
        c * BLOCK_SIZE
    }
}

/// Converts a grid coordinate to a pixel offset, saturating at the `u32`
/// bounds.
pub fn to_coord_u32(coord: i32) -> (r: u32)
    ensures
        r == to_coord_spec(coord as int),
{
    if coord <= 0 {
        0
    } else {
        let v: u64 = (coord as u64) * 25;
        if v > u32::MAX as u64 {
            u32::MAX
        } else {
            v as u32
        }
    }
}

} // verus!
