//! RGBA colors with 8-bit channels, and the intensity-scaling step that
//! turns a shading intensity into a displayable color.

use vstd::prelude::*;
use crate::fixed::{tdiv, SCALE};

verus! {

/// An 8-bit-per-channel RGBA color.  Channels are always in `[0, 255]`
/// by construction of the type.
#[derive(Clone, Copy, PartialEq, Eq, Structural, Debug)]
pub struct Color {
    pub r: u8,
    pub g: u8,
    pub b: u8,
    pub a: u8,
}

pub open spec fn spec_white() -> Color {
    Color { r: 255, g: 255, b: 255, a: 255 }
}

pub fn red() -> (c: Color)
    ensures
        c == (Color { r: 255, g: 0, b: 0, a: 255 }),
{
    Color { r: 255, g: 0, b: 0, a: 255 }
}

pub fn blue() -> (c: Color)
    ensures
        c == (Color { r: 0, g: 0, b: 255, a: 255 }),
{
    Color { r: 0, g: 0, b: 255, a: 255 }
}

pub fn green() -> (c: Color)
    ensures
        c == (Color { r: 0, g: 255, b: 0, a: 255 }),
{
    Color { r: 0, g: 255, b: 0, a: 255 }
}

pub fn black() -> (c: Color)
    ensures
        c == (Color { r: 0, g: 0, b: 0, a: 255 }),
{
    Color { r: 0, g: 0, b: 0, a: 255 }
}

/// The background color a missed ray yields.
pub fn white() -> (c: Color)
    ensures
        c == spec_white(),
{
    Color { r: 255, g: 255, b: 255, a: 255 }
}

pub fn purple() -> (c: Color)
    ensures
        c == (Color { r: 255, g: 0, b: 255, a: 255 }),
{
    Color { r: 255, g: 0, b: 255, a: 255 }
}

/// Clamps an integer into a displayable channel value.
pub open spec fn clamp_channel(v: int) -> int {
    if v < 0 {
        0
    } else if v > 255 {
        255
    } else {
        v
    }
}

/// The color that scaling `c` by a fixed-point `intensity` yields: each
/// channel is multiplied by the intensity, scaled back, and clamped into
/// `[0, 255]`; the result is fully opaque.
pub open spec fn spec_adjust(c: Color, intensity: int) -> Color {
    Color {
        r: clamp_channel(tdiv(c.r * intensity, SCALE as int)) as u8,
        g: clamp_channel(tdiv(c.g * intensity, SCALE as int)) as u8,
        b: clamp_channel(tdiv(c.b * intensity, SCALE as int)) as u8,
        a: 255,
    }
}

/// Intensities passed to `adjust_color` stay below this magnitude, so
/// the channel products fit the machine arithmetic.
pub const INTENSITY_LIMIT: i128 = 0x40_0000_0000_0000_0000_0000_0000_0000;

/// Scales a color by a fixed-point intensity (`SCALE` means one), with
/// clamping instead of wrapping, and forces full opacity.
pub fn adjust_color(color: &mut Color, intensity: i128)
    requires
        -INTENSITY_LIMIT <= intensity <= INTENSITY_LIMIT,
    ensures
        *final(color) == spec_adjust(*old(color), intensity as int),
{
    proof {
        crate::vec3::lemma_abs_mul(color.r as int, intensity as int, 255, INTENSITY_LIMIT as int);
        crate::vec3::lemma_abs_mul(color.g as int, intensity as int, 255, INTENSITY_LIMIT as int);
        crate::vec3::lemma_abs_mul(color.b as int, intensity as int, 255, INTENSITY_LIMIT as int);
    }
    let r: i128 = crate::fixed::div_fix(color.r as i128 * intensity, SCALE as i128);
    let g: i128 = crate::fixed::div_fix(color.g as i128 * intensity, SCALE as i128);
    let b: i128 = crate::fixed::div_fix(color.b as i128 * intensity, SCALE as i128);
    color.r = clamp_to_channel(r);
    color.g = clamp_to_channel(g);
    color.b = clamp_to_channel(b);
    color.a = 255;
}

/// Clamps a wide intermediate into a channel byte.
fn clamp_to_channel(v: i128) -> (c: u8)
    ensures
        c as int == clamp_channel(v as int),
{
    if v < 0 {
        0
    } else if v > 255 {
        255
    } else {
        v as u8
    }
}

/// Channels of an adjusted color always lie in `[0, 255]`, whatever the
/// accumulated intensity was.
pub proof fn lemma_adjust_in_range(c: Color, intensity: int)
    ensures
        0 <= spec_adjust(c, intensity).r <= 255,
        0 <= spec_adjust(c, intensity).g <= 255,
        0 <= spec_adjust(c, intensity).b <= 255,
        spec_adjust(c, intensity).a == 255,
{
}

} // verus!
