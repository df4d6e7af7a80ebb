//! Fixed-point RGB color triple with saturating arithmetic and a lossless
//! round trip to a 24-bit packed integer in the form `0xRRGGBB`.

use vstd::prelude::*;

verus! {

/// A color to paint on the screen, one byte per channel.
#[derive(Debug, Clone, Copy, PartialEq, Eq, Structural)]
pub struct Color {
    pub r: u8,
    pub g: u8,
    pub b: u8,
}

/// The 24-bit packed integer `0xRRGGBB` that a color converts to.
pub open spec fn hex_of(c: Color) -> u32 {
    (((c.r as u32) << 16) | ((c.g as u32) << 8)) | (c.b as u32)
}

/// The color encoded by the low 24 bits of a packed integer.
pub open spec fn color_of_hex(v: u32) -> Color {
    Color {
        r: ((v >> 16) & 0xFF) as u8,
        g: ((v >> 8) & 0xFF) as u8,
        b: (v & 0xFF) as u8,
    }
}

impl Color {
    pub fn new(r: u8, g: u8, b: u8) -> (c: Self)
        ensures
            c == (Color { r, g, b }),
    {
        Color { r, g, b }
    }

    pub fn black() -> (c: Self)
        ensures
            c == (Color { r: 0u8, g: 0u8, b: 0u8 }),
    {
        Color::new(0, 0, 0)
    }

    pub fn white() -> (c: Self)
        ensures
            c == (Color { r: 255u8, g: 255u8, b: 255u8 }),
    {
        Color::new(u8::MAX, u8::MAX, u8::MAX)
    }
}

/// One channel of a scalar multiply: the channel value times a factor given
/// in thousandths, rounded to the nearest integer (ties away from zero) and
/// clamped to `[0, 255]`.
pub open spec fn scaled_channel(c: u8, factor_thousandths: int) -> u8 {
    let p = c * factor_thousandths;
    if p <= 0 {
        0u8
    } else if (p + 500) / 1000 >= 255 {
        255u8
    } else {
        ((p + 500) / 1000) as u8
    }
}

/// The color produced by multiplying every channel of `c` by a factor given
/// in thousandths.
pub open spec fn scaled_color(c: Color, factor_thousandths: int) -> Color {
    Color {
        r: scaled_channel(c.r, factor_thousandths),
        g: scaled_channel(c.g, factor_thousandths),
        b: scaled_channel(c.b, factor_thousandths),
    }
}

impl Color {
    /// Per-channel saturating addition: each channel clamps at 255 instead of
    /// wrapping.
    pub fn add(self, rhs: Self) -> (c: Self)
        ensures
            c.r == self.r as int + rhs.r as int || (c.r == 255 && self.r + rhs.r > 255),
            c.g == self.g as int + rhs.g as int || (c.g == 255 && self.g + rhs.g > 255),
            c.b == self.b as int + rhs.b as int || (c.b == 255 && self.b + rhs.b > 255),
    {
        Color::new(
            self.r.saturating_add(rhs.r),
            self.g.saturating_add(rhs.g),
            self.b.saturating_add(rhs.b),
        )
    }

    /// Per-channel saturating subtraction: each channel clamps at 0 instead of
    /// wrapping.
    pub fn sub(self, rhs: Self) -> (c: Self)
        ensures
            c.r == self.r as int - rhs.r as int || (c.r == 0 && self.r < rhs.r),
            c.g == self.g as int - rhs.g as int || (c.g == 0 && self.g < rhs.g),
            c.b == self.b as int - rhs.b as int || (c.b == 0 && self.b < rhs.b),
    {
        Color::new(
            self.r.saturating_sub(rhs.r),
            self.g.saturating_sub(rhs.g),
            self.b.saturating_sub(rhs.b),
        )
    }

    /// Multiplies every channel by a scalar factor given in thousandths
    /// (so `1500` stands for one and a half), rounding to the nearest integer
    /// and clamping the result to `[0, 255]`. The factor may be negative or
    /// arbitrarily large; the result is always a valid color.
    pub fn multiply(self, factor_thousandths: i64) -> (c: Self)
        ensures
            c == scaled_color(self, factor_thousandths as int),
    {
        Color::new(
            multiply_channel(self.r, factor_thousandths),
            multiply_channel(self.g, factor_thousandths),
            multiply_channel(self.b, factor_thousandths),
        )
    }
}

fn multiply_channel(c: u8, factor_thousandths: i64) -> (v: u8)
    ensures
        v == scaled_channel(c, factor_thousandths as int),
{
    let ci: i128 = c as i128;
    let fi: i128 = factor_thousandths as i128;
    proof {
        assert(ci * fi <= 255 * 0x7fff_ffff_ffff_ffff && ci * fi >= 255 * (
        -0x8000_0000_0000_0000)) by (nonlinear_arith)
            requires
                0 <= ci <= 255,
                -0x8000_0000_0000_0000 <= fi <= 0x7fff_ffff_ffff_ffff,
        ;
    }
    let p: i128 = ci * fi;
    if p <= 0 {
        0
    } else {
        let q: i128 = (p + 500) / 1000;
        if q >= 255 {
            255
        } else {
            q as u8
        }
    }
}

/// A scalar multiply saturates: every channel of the result lies in
/// `[0, 255]`; any factor at or below zero yields black; a factor of 255 or
/// more yields white on every color whose channels are all nonzero.
pub proof fn lemma_multiply_saturates(c: Color, factor_thousandths: int)
    ensures
        0 <= scaled_color(c, factor_thousandths).r <= 255,
        0 <= scaled_color(c, factor_thousandths).g <= 255,
        0 <= scaled_color(c, factor_thousandths).b <= 255,
        factor_thousandths <= 0 ==> scaled_color(c, factor_thousandths) == (Color {
            r: 0u8,
            g: 0u8,
            b: 0u8,
        }),
        c.r >= 1 && c.g >= 1 && c.b >= 1 && factor_thousandths >= 255000
            ==> scaled_color(c, factor_thousandths) == (Color { r: 255u8, g: 255u8, b: 255u8 }),
{
    lemma_channel_saturates(c.r, factor_thousandths);
    lemma_channel_saturates(c.g, factor_thousandths);
    lemma_channel_saturates(c.b, factor_thousandths);
}

proof fn lemma_channel_saturates(c: u8, factor_thousandths: int)
    ensures
        factor_thousandths <= 0 ==> scaled_channel(c, factor_thousandths) == 0,
        c >= 1 && factor_thousandths >= 255000 ==> scaled_channel(c, factor_thousandths) == 255,
{
    let f = factor_thousandths;
    assert(f <= 0 ==> c * f <= 0) by (nonlinear_arith);
    if c >= 1 && f >= 255000 {
        assert(c * f >= 1 * f) by (nonlinear_arith)
            requires
                c >= 1,
                f >= 0,
        ;
        assert((c * f + 500) / 1000 >= (255000 + 500) / 1000) by {
            vstd::arithmetic::div_mod::lemma_div_is_ordered(255500, c * f + 500, 1000);
        }
    }
}

/// Converts from a packed hex integer into a `Color`.
pub fn from_hex_value(value: &u32) -> (c: Color)
    ensures
        c == color_of_hex(*value),
{
    let v = *value;
    let r = ((v >> 16) & 0xFF) as u8;
    let g = ((v >> 8) & 0xFF) as u8;
    let b = (v & 0xFF) as u8;

    Color::new(r, g, b)
}

/// Converts from a color into a packed hex integer.
pub fn to_hex_value(value: &Color) -> (v: u32)
    ensures
        v == hex_of(*value),
        v <= 0xFFFFFF,
{
    proof {
        lemma_hex_of_bounded(*value);
    }
    let c = *value;
    (c.r as u32) << 16 | (c.g as u32) << 8 | (c.b as u32)
}

/// A packed color never uses more than 24 bits.
pub proof fn lemma_hex_of_bounded(c: Color)
    ensures
        hex_of(c) <= 0xFFFFFF,
{
    let (r, g, b) = (c.r, c.g, c.b);
    assert((((r as u32) << 16) | ((g as u32) << 8)) | (b as u32) <= 0xFFFFFF) by (bit_vector);
}

/// Packing and unpacking are exact inverses over the 24-bit space: unpacking
/// any `v` in `[0, 0xFFFFFF]` and packing the result returns `v`.
pub proof fn lemma_hex_round_trip(v: u32)
    requires
        v <= 0xFFFFFF,
    ensures
        hex_of(color_of_hex(v)) == v,
{
    assert((((((v >> 16) & 0xFF) as u8) as u32) << 16
        | ((((v >> 8) & 0xFF) as u8) as u32) << 8
        | (((v & 0xFF) as u8) as u32)) == v) by (bit_vector)
        requires
            v <= 0xFFFFFF,
    ;
}

/// Unpacking the packed form of any color returns the same color.
pub proof fn lemma_color_round_trip(c: Color)
    ensures
        color_of_hex(hex_of(c)) == c,
{
    let (r, g, b) = (c.r, c.g, c.b);
    let v = (((r as u32) << 16) | ((g as u32) << 8)) | (b as u32);
    assert(((v >> 16) & 0xFF) as u8 == r) by (bit_vector)
        requires
            v == (((r as u32) << 16) | ((g as u32) << 8)) | (b as u32),
    ;
    assert(((v >> 8) & 0xFF) as u8 == g) by (bit_vector)
        requires
            v == (((r as u32) << 16) | ((g as u32) << 8)) | (b as u32),
    ;
    assert((v & 0xFF) as u8 == b) by (bit_vector)
        requires
            v == (((r as u32) << 16) | ((g as u32) << 8)) | (b as u32),
    ;
}

} // verus!
