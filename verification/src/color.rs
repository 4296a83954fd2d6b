//! Colors of three 8-bit channels, and the two operations that shading needs:
//! scaling by a light intensity and blending with a reflection.
use crate::arith::{div_toward_zero, div_tz, lemma_mul_bound};
use crate::fixed::{Fixed, MAX_RAW, ONE_RAW};
use vstd::prelude::*;

verus! {

/// `v` clamped to the range of a channel.
pub open spec fn channel(v: int) -> u8 {
    if v < 0 {
        0u8
    } else if v > 255 {
        255u8
    } else {
        v as u8
    }
}

/// A channel scaled by the number with raw value `k`: the product is rounded
/// toward zero and clamped to the channel range.
pub open spec fn scale_channel(c: u8, k: int) -> u8 {
    channel(div_tz(c * k, ONE_RAW as int))
}

/// A channel `a` blended with a channel `b`, which gets the weight with raw
/// value `w` while `a` gets one minus that weight.
pub open spec fn blend_channel(a: u8, b: u8, w: int) -> u8 {
    channel(div_tz(a * (ONE_RAW - w) + b * w, ONE_RAW as int))
}

/// A color scaled channel by channel.
pub open spec fn color_scale(c: Color, k: int) -> Color {
    Color { r: scale_channel(c.r, k), g: scale_channel(c.g, k), b: scale_channel(c.b, k) }
}

/// Two colors blended channel by channel.
pub open spec fn color_blend(a: Color, b: Color, w: int) -> Color {
    Color {
        r: blend_channel(a.r, b.r, w),
        g: blend_channel(a.g, b.g, w),
        b: blend_channel(a.b, b.b, w),
    }
}

/// An opaque color.
#[derive(Clone, Copy, Debug, PartialEq, Eq)]
pub struct Color {
    pub r: u8,
    pub g: u8,
    pub b: u8,
}

fn clamp_channel(v: i128) -> (r: u8)
    ensures
        r == channel(v as int),
{
    if v < 0 {
        0
    } else if v > 255 {
        255
    } else {
        v as u8
    }
}

fn scale_one(c: u8, k: Fixed) -> (r: u8)
    ensures
        r == scale_channel(c, k@),
{
    let kr = k.raw();
    proof {
        lemma_mul_bound(c as int, kr as int, 255, MAX_RAW as int);
    }
    clamp_channel(div_toward_zero(c as i128 * kr as i128, ONE_RAW as i128))
}

fn blend_one(a: u8, b: u8, w: Fixed) -> (r: u8)
    ensures
        r == blend_channel(a, b, w@),
{
    let wr = w.raw();
    proof {
        lemma_mul_bound(a as int, ONE_RAW - wr, 255, MAX_RAW + ONE_RAW);
        lemma_mul_bound(b as int, wr as int, 255, MAX_RAW as int);
    }
    let sum: i128 = a as i128 * (ONE_RAW as i128 - wr as i128) + b as i128 * wr as i128;
    clamp_channel(div_toward_zero(sum, ONE_RAW as i128))
}

impl Color {
    /// The color with the given channels.
    pub fn new(r: u8, g: u8, b: u8) -> (c: Color)
        ensures
            c == (Color { r, g, b }),
    {
        Color { r, g, b }
    }

    /// Black.
    pub fn black() -> (c: Color)
        ensures
            c == (Color { r: 0, g: 0, b: 0 }),
    {
        Color { r: 0, g: 0, b: 0 }
    }

    /// White.
    pub fn white() -> (c: Color)
        ensures
            c == (Color { r: 255, g: 255, b: 255 }),
    {
        Color { r: 255, g: 255, b: 255 }
    }

    /// Red.
    pub fn red() -> (c: Color)
        ensures
            c == (Color { r: 255, g: 0, b: 0 }),
    {
        Color { r: 255, g: 0, b: 0 }
    }

    /// Green.
    pub fn green() -> (c: Color)
        ensures
            c == (Color { r: 0, g: 255, b: 0 }),
    {
        Color { r: 0, g: 255, b: 0 }
    }

    /// Blue.
    pub fn blue() -> (c: Color)
        ensures
            c == (Color { r: 0, g: 0, b: 255 }),
    {
        Color { r: 0, g: 0, b: 255 }
    }

    /// Yellow.
    pub fn yellow() -> (c: Color)
        ensures
            c == (Color { r: 255, g: 255, b: 0 }),
    {
        Color { r: 255, g: 255, b: 0 }
    }

    /// Magenta.
    pub fn magenta() -> (c: Color)
        ensures
            c == (Color { r: 255, g: 0, b: 255 }),
    {
        Color { r: 255, g: 0, b: 255 }
    }

    /// Cyan.
    pub fn cyan() -> (c: Color)
        ensures
            c == (Color { r: 0, g: 255, b: 255 }),
    {
        Color { r: 0, g: 255, b: 255 }
    }

    /// The color with every channel scaled by `k` and clamped.
    pub fn scale(self, k: Fixed) -> (c: Color)
        ensures
            c == color_scale(self, k@),
    {
        Color { r: scale_one(self.r, k), g: scale_one(self.g, k), b: scale_one(self.b, k) }
    }

    /// The color blended with `other`, which gets the weight `w` while `self`
    /// gets one minus `w`.
    pub fn blend(self, other: Color, w: Fixed) -> (c: Color)
        ensures
            c == color_blend(self, other, w@),
    {
        Color {
            r: blend_one(self.r, other.r, w),
            g: blend_one(self.g, other.g, w),
            b: blend_one(self.b, other.b, w),
        }
    }
}

/// Scaling by one keeps a color, and scaling by zero or less gives black.
pub proof fn lemma_scale_identity(c: Color, k: int)
    ensures
        color_scale(c, ONE_RAW as int) == c,
        k <= 0 ==> color_scale(c, k) == (Color { r: 0, g: 0, b: 0 }),
{
    lemma_scale_channel(c.r, k);
    lemma_scale_channel(c.g, k);
    lemma_scale_channel(c.b, k);
}

proof fn lemma_scale_channel(c: u8, k: int)
    ensures
        scale_channel(c, ONE_RAW as int) == c,
        k <= 0 ==> scale_channel(c, k) == 0,
{
    assert((c * 65536) / 65536 == c as int) by (nonlinear_arith);
    if k <= 0 {
        let n = -(c * k);
        assert(n >= 0) by (nonlinear_arith)
            requires
                n == -(c * k),
                k <= 0,
                0 <= c,
        ;
        assert(n / 65536 >= 0) by (nonlinear_arith)
            requires
                n >= 0,
        ;
    }
}

} // verus!
