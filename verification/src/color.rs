//! Colors as triples of fixed-point channels. While samples are summed a
//! channel may exceed one unit; combining samples scales the sum back,
//! gamma-corrects it and maps it to the displayable `[0, 255]` range.

use vstd::prelude::*;
use crate::fixed::{add_s, div_s, mul_s, sqrt_s};
use crate::fixed::{fx_add, fx_div, fx_mul, fx_sqrt};

verus! {

/// One fixed-point unit: the largest in-range fraction for `from_frac`.
pub const CHANNEL_ONE: i64 = 65536;

/// `0.999` in fixed point: the upper clamp before the 8-bit conversion.
pub const CLAMP_MAX: i64 = 65470;

/// `256` in fixed point: the factor taking a clamped channel to `[0, 255]`.
pub const FX_256: i64 = 16777216;

/// A color; each channel is a fixed-point scalar.
#[derive(Clone, Copy, Debug, PartialEq, Eq, Structural)]
pub struct Color {
    pub r: i64,
    pub g: i64,
    pub b: i64,
}

pub open spec fn clamp_s(x: int, min: int, max: int) -> int {
    if x < min {
        min
    } else if x > max {
        max
    } else {
        x
    }
}

pub open spec fn color_add(a: Color, b: Color) -> Color {
    Color {
        r: add_s(a.r as int, b.r as int) as i64,
        g: add_s(a.g as int, b.g as int) as i64,
        b: add_s(a.b as int, b.b as int) as i64,
    }
}

pub open spec fn color_mul(a: Color, b: Color) -> Color {
    Color {
        r: mul_s(a.r as int, b.r as int) as i64,
        g: mul_s(a.g as int, b.g as int) as i64,
        b: mul_s(a.b as int, b.b as int) as i64,
    }
}

/// The color scaled by the fixed-point factor `t`.
pub open spec fn color_scale(t: int, c: Color) -> Color {
    Color {
        r: mul_s(t, c.r as int) as i64,
        g: mul_s(t, c.g as int) as i64,
        b: mul_s(t, c.b as int) as i64,
    }
}

/// An 8-bit fraction mapped into fixed point: `v / 255` of one unit.
pub open spec fn u8_channel_s(v: int) -> int {
    (v * 65536) / 255
}

/// One channel of sample combination: average over `samples`, gamma-correct
/// by square root, clamp to `[0, 0.999]` and scale by 256.
pub open spec fn combine_channel_s(c: int, samples: int) -> int {
    mul_s(16777216, clamp_s(sqrt_s(div_s(c, samples * 65536)), 0, 65470))
}

pub open spec fn color_combine_s(c: Color, samples: int) -> Color {
    Color {
        r: combine_channel_s(c.r as int, samples) as i64,
        g: combine_channel_s(c.g as int, samples) as i64,
        b: combine_channel_s(c.b as int, samples) as i64,
    }
}

/// A channel written as an 8-bit value: divided by one unit and saturated
/// into `[0, 255]`.
pub open spec fn channel_u8_s(c: int) -> int {
    if c < 0 {
        0
    } else if c / 65536 > 255 {
        255
    } else {
        c / 65536
    }
}

impl Color {
    /// The color with the given 8-bit channels, each mapped to a fraction of
    /// one unit.
    pub fn from_u8(r: u8, g: u8, b: u8) -> (c: Color)
        ensures
            c.r as int == u8_channel_s(r as int),
            c.g as int == u8_channel_s(g as int),
            c.b as int == u8_channel_s(b as int),
    {
        Color { r: u8_to_channel(r), g: u8_to_channel(g), b: u8_to_channel(b) }
    }

    /// Accepts only channels between zero and one unit.
    pub fn from_frac(r: i64, g: i64, b: i64) -> (c: Option<Color>)
        ensures
            c is Some <==> (0 <= r <= 65536 && 0 <= g <= 65536 && 0 <= b <= 65536),
            c is Some ==> c->Some_0 == (Color { r, g, b }),
    {
        if r > CHANNEL_ONE || r < 0 || g > CHANNEL_ONE || g < 0 || b > CHANNEL_ONE || b < 0 {
            None
        } else {
            Some(Color { r, g, b })
        }
    }

    /// All channels zero.
    pub fn black() -> (c: Color)
        ensures
            c == (Color { r: 0, g: 0, b: 0 }),
    {
        Color { r: 0, g: 0, b: 0 }
    }

    pub fn white() -> (c: Color)
        ensures
            c == (Color { r: 65536, g: 65536, b: 65536 }),
    {
        Color { r: 65536, g: 65536, b: 65536 }
    }

    /// A sky blue: the fractions `0.5`, `0.7`, `1.0` in fixed point.
    pub fn blue() -> (c: Color)
        ensures
            c == (Color { r: 32768, g: 45875, b: 65536 }),
    {
        Color { r: 32768, g: 45875, b: 65536 }
    }

    pub fn copy(&self) -> (c: Color)
        ensures
            c == *self,
    {
        Color { r: self.r, g: self.g, b: self.b }
    }

    /// Adds a sample's channels onto the accumulated sum; sums above one
    /// unit are kept (they only collapse in `combine_samples`).
    pub fn add_sample(&mut self, color: Color)
        ensures
            *final(self) == color_add(*old(self), color),
    {
        self.r = fx_add(self.r, color.r);
        self.g = fx_add(self.g, color.g);
        self.b = fx_add(self.b, color.b);
    }

    /// Collapses a sum of `samples` samples to one displayable color:
    /// average, gamma-correct (square root), clamp and scale to `[0, 255]`.
    pub fn combine_samples(&mut self, samples: u16)
        requires
            samples > 0,
        ensures
            *final(self) == color_combine_s(*old(self), samples as int),
    {
        let divisor: i64 = (samples as i64) * 65536;
        self.r = fx_mul(FX_256, clamp(fx_sqrt(fx_div(self.r, divisor)), 0, CLAMP_MAX));
        self.g = fx_mul(FX_256, clamp(fx_sqrt(fx_div(self.g, divisor)), 0, CLAMP_MAX));
        self.b = fx_mul(FX_256, clamp(fx_sqrt(fx_div(self.b, divisor)), 0, CLAMP_MAX));
    }

    /// The channels as 8-bit values, saturated into `[0, 255]`.
    pub fn get_u8(self) -> (r: [u8; 3])
        ensures
            r@ == seq![
                channel_u8_s(self.r as int) as u8,
                channel_u8_s(self.g as int) as u8,
                channel_u8_s(self.b as int) as u8,
            ],
    {
        [channel_to_u8(self.r), channel_to_u8(self.g), channel_to_u8(self.b)]
    }

    /// Channelwise product: attenuation applied to a traced color.
    pub fn mul(self, rhs: Color) -> (c: Color)
        ensures
            c == color_mul(self, rhs),
    {
        Color { r: fx_mul(self.r, rhs.r), g: fx_mul(self.g, rhs.g), b: fx_mul(self.b, rhs.b) }
    }

    pub fn add(self, rhs: Color) -> (c: Color)
        ensures
            c == color_add(self, rhs),
    {
        Color { r: fx_add(self.r, rhs.r), g: fx_add(self.g, rhs.g), b: fx_add(self.b, rhs.b) }
    }

    /// The color scaled by the fixed-point factor `t`.
    pub fn scale(self, t: i64) -> (c: Color)
        ensures
            c == color_scale(t as int, self),
    {
        Color { r: fx_mul(t, self.r), g: fx_mul(t, self.g), b: fx_mul(t, self.b) }
    }
}

/// Accumulating one sample onto black and combining with one sample yields,
/// per channel, the sample's square root clamped to `[0, 0.999]` and scaled
/// by 256.
pub proof fn lemma_single_sample_combine(c: Color)
    ensures
        color_combine_s(color_add(Color { r: 0, g: 0, b: 0 }, c), 1) == (Color {
            r: mul_s(16777216, clamp_s(sqrt_s(c.r as int), 0, 65470)) as i64,
            g: mul_s(16777216, clamp_s(sqrt_s(c.g as int), 0, 65470)) as i64,
            b: mul_s(16777216, clamp_s(sqrt_s(c.b as int), 0, 65470)) as i64,
        }),
{
    lemma_combine_channel_one(c.r as int);
    lemma_combine_channel_one(c.g as int);
    lemma_combine_channel_one(c.b as int);
}

proof fn lemma_combine_channel_one(x: int)
    requires
        i64::MIN <= x <= i64::MAX,
    ensures
        combine_channel_s(add_s(0, x), 1) == mul_s(16777216, clamp_s(sqrt_s(x), 0, 65470)),
{
    assert(add_s(0, x) == x);
    crate::fixed::lemma_div_s_one(x);
    assert(div_s(x, 65536int) == x);
}

fn u8_to_channel(v: u8) -> (r: i64)
    ensures
        r as int == u8_channel_s(v as int),
{
    ((v as u64 * 65536) / 255) as i64
}

fn channel_to_u8(c: i64) -> (r: u8)
    ensures
        r as int == channel_u8_s(c as int),
{
    if c < 0 {
        0
    } else {
        let q: u64 = (c as u64) / 65536;
        if q > 255 {
            255
        } else {
            q as u8
        }
    }
}

/// Clamp value x to the range `[min, max]`.
pub fn clamp(x: i64, min: i64, max: i64) -> (r: i64)
    ensures
        r as int == clamp_s(x as int, min as int, max as int),
{
    if x < min {
        return min;
    }
    if x > max {
        return max;
    }
    x
}

} // verus!
