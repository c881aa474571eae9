use vstd::prelude::*;
use crate::fixed::{add_spec, fx_add, fx_mul, mul_spec, tdiv, ONE};

verus! {

/// A color whose channels are fixed-point 8-bit levels: `ONE` is one level.
/// Channels are not clamped while shading; `to_hex` clamps when packing.
#[derive(Clone, Copy, Debug, PartialEq, Eq, Structural)]
pub struct Color {
    pub r: i64,
    pub g: i64,
    pub b: i64,
}

pub open spec fn color_of(r: int, g: int, b: int) -> Color {
    Color { r: r as i64, g: g as i64, b: b as i64 }
}

pub open spec fn add_c(a: Color, b: Color) -> Color {
    color_of(add_spec(a.r as int, b.r as int), add_spec(a.g as int, b.g as int), add_spec(a.b as int, b.b as int))
}

pub open spec fn scale_c(a: Color, k: int) -> Color {
    color_of(mul_spec(a.r as int, k), mul_spec(a.g as int, k), mul_spec(a.b as int, k))
}

/// The 8-bit level of a fixed-point channel, clamped to `0..=255`.
pub open spec fn level(c: int) -> int {
    let l = tdiv(c, ONE as int);
    if l < 0 { 0 } else if l > 255 { 255 } else { l }
}

pub open spec fn hex_spec(c: Color) -> int {
    level(c.r as int) * 65536 + level(c.g as int) * 256 + level(c.b as int)
}

/// The sky seen where a ray meets nothing.
pub open spec fn skybox_spec() -> Color {
    color_of(68 * ONE, 142 * ONE, 228 * ONE)
}

fn level_exec(c: i64) -> (r: u32)
    ensures
        r as int == level(c as int),
{
    let l: i64 = if c < 0 { -((-(c as i128) / (ONE as i128)) as i64) } else { c / ONE };
    if l < 0 {
        0
    } else if l > 255 {
        255
    } else {
        l as u32
    }
}

impl Color {
    /// The color with the given 8-bit levels.
    pub fn new(r: u8, g: u8, b: u8) -> (res: Color)
        ensures
            res == color_of(r * ONE, g * ONE, b * ONE),
    {
        Color { r: r as i64 * ONE, g: g as i64 * ONE, b: b as i64 * ONE }
    }

    pub fn black() -> (res: Color)
        ensures
            res == color_of(0, 0, 0),
    {
        Color { r: 0, g: 0, b: 0 }
    }

    /// Pure green.
    pub fn green() -> (res: Color)
        ensures
            res == color_of(0, 255 * ONE, 0),
    {
        Color::new(0, 255, 0)
    }

    pub fn skybox() -> (res: Color)
        ensures
            res == skybox_spec(),
    {
        Color::new(68, 142, 228)
    }

    pub fn add(&self, o: &Color) -> (res: Color)
        ensures
            res == add_c(*self, *o),
    {
        Color { r: fx_add(self.r, o.r), g: fx_add(self.g, o.g), b: fx_add(self.b, o.b) }
    }

    /// Multiply each channel by the fixed-point factor `k`.
    pub fn scale(&self, k: i64) -> (res: Color)
        ensures
            res == scale_c(*self, k as int),
    {
        Color { r: fx_mul(self.r, k), g: fx_mul(self.g, k), b: fx_mul(self.b, k) }
    }

    /// Pack as `0xRRGGBB`, each channel clamped to `0..=255`.
    pub fn to_hex(&self) -> (res: u32)
        ensures
            res as int == hex_spec(*self),
    {
        level_exec(self.r) * 65536 + level_exec(self.g) * 256 + level_exec(self.b)
    }
}

} // verus!
