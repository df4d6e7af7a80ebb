//! The decision points of the shading engine that carry no floating-point
//! state: the depth cap that bounds the reflection and refraction
//! recursion, and the fixed sky color returned when a ray escapes the
//! scene or the cap is reached.

use vstd::prelude::*;

use crate::color::{color_of_hex, from_hex_value, Color};

verus! {

/// The deepest bounce the shading recursion evaluates: rays are traced at
/// depths `0` through `MAX_RAY_DEPTH`, and any deeper call falls back to
/// the sky color, so a fully mirrored scene still terminates after exactly
/// four bounces.
pub const MAX_RAY_DEPTH: u32 = 3;

/// Decides whether a recursive ray at `depth` is past the cap and must
/// return the sky color instead of being traced.
pub fn depth_exceeds_cap(depth: u32) -> (r: bool)
    ensures
        r <==> depth > MAX_RAY_DEPTH,
{
    depth > MAX_RAY_DEPTH
}

/// The mid-gray sky color that a ray which hits nothing resolves to.
pub fn sky_color() -> (c: Color)
    ensures
        c == color_of_hex(0x383838),
        c == (Color { r: 0x38u8, g: 0x38u8, b: 0x38u8 }),
{
    proof {
        assert(color_of_hex(0x383838) == (Color { r: 0x38u8, g: 0x38u8, b: 0x38u8 }))
            by (bit_vector);
    }
    from_hex_value(&0x383838)
}

} // verus!
