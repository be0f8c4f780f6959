//! Lengths that scale with the density of the screen.

use vstd::prelude::*;

verus! {

/// The density, in dots per inch, at which lengths are given.
pub const REFERENCE_DPI: u16 = 300;

/// `x` scaled from the reference density to `dpi`, rounded down.
pub open spec fn scaled(x: u16, dpi: u16) -> int {
    (x * dpi) / (REFERENCE_DPI as int)
}

/// A scaled length is never negative and never beyond 2^24.
pub proof fn lemma_scaled_bounds(x: u16, dpi: u16)
    ensures
        0 <= scaled(x, dpi) <= 0xFF_FFFF,
{
    assert(0 <= x * dpi <= 0xFFFF * 0xFFFF) by (nonlinear_arith)
        requires
            0 <= x <= 0xFFFF,
            0 <= dpi <= 0xFFFF,
    ;
}

/// Scales the length `x`, given at the reference density, to `dpi`.
pub fn scale_by_dpi(x: u16, dpi: u16) -> (r: i32)
    ensures
        r == scaled(x, dpi),
        0 <= r <= 0xFF_FFFF,
{
    proof {
        lemma_scaled_bounds(x, dpi);
    }
    assert(0 <= x * dpi <= 0xFFFF * 0xFFFF) by (nonlinear_arith)
        requires
            0 <= x <= 0xFFFF,
            0 <= dpi <= 0xFFFF,
    ;
    let product: u32 = (x as u32) * (dpi as u32);
    (product / (REFERENCE_DPI as u32)) as i32
}

} // verus!
