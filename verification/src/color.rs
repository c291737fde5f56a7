//! Colors: three independent 8-bit channels with saturating scalar scaling
//! and a pure per-channel gamma transform.

use vstd::arithmetic::div_mod::lemma_div_is_ordered_by_denominator;
use vstd::arithmetic::div_mod::lemma_div_nonincreasing;
use vstd::arithmetic::div_mod::lemma_fundamental_div_mod;
use vstd::arithmetic::mul::lemma_mul_inequality;
use vstd::prelude::*;

verus! {

/// One pixel: red, green and blue channels, 8 bits each.
/// Colors are immutable values; every operation returns a fresh one.
#[derive(Clone, Copy, PartialEq, Eq, Structural, Debug)]
pub struct Color {
    pub r: u8,
    pub g: u8,
    pub b: u8,
}

/// The gamma transform of one channel: a pure, strictly tabulable map
/// with gamma exponent two, rounded to nearest, fixing 0 and 255.
pub open spec fn spec_gamma(v: u8) -> u8 {
    (((v * v) + 127) / 255) as u8
}

/// One channel scaled by the ratio `num / den`, truncated toward zero and
/// saturated at 255.
pub open spec fn spec_scale_channel(v: u8, num: u32, den: u32) -> u8
    recommends
        den > 0,
{
    let q = (v as int * num as int) / (den as int);
    if q > 255 {
        255u8
    } else {
        q as u8
    }
}

/// A whole color scaled channel-wise by the ratio `num / den`.
pub open spec fn spec_scale(c: Color, num: u32, den: u32) -> Color
    recommends
        den > 0,
{
    Color {
        r: spec_scale_channel(c.r, num, den),
        g: spec_scale_channel(c.g, num, den),
        b: spec_scale_channel(c.b, num, den),
    }
}

/// An all-black color, the default pixel value.
pub open spec fn black() -> Color {
    Color { r: 0, g: 0, b: 0 }
}

fn gamma_channel(v: u8) -> (w: u8)
    ensures
        w == spec_gamma(v),
{
    assert((v as int) * (v as int) <= 65025) by {
        lemma_mul_inequality(v as int, 255, v as int);
        lemma_mul_inequality(255, 255, 255);
    }
    let x: u32 = (v as u32) * (v as u32);
    let y: u32 = (x + 127) / 255;
    assert(y <= 255);
    y as u8
}

fn scale_channel(v: u8, num: u32, den: u32) -> (w: u8)
    requires
        den > 0,
    ensures
        w == spec_scale_channel(v, num, den),
{
    assert((v as int) * (num as int) <= 255 * 0xffff_ffff) by {
        lemma_mul_inequality(v as int, 255, num as int);
        lemma_mul_inequality(255, 255, 0xffff_ffff);
    }
    let p: u64 = (v as u64) * (num as u64);
    let q: u64 = p / (den as u64);
    if q > 255 {
        255
    } else {
        q as u8
    }
}

impl Color {
    /// Applies the gamma transform to all three channels.
    pub fn gamma_correct(&self) -> (c: Color)
        ensures
            c == (Color {
                r: spec_gamma(self.r),
                g: spec_gamma(self.g),
                b: spec_gamma(self.b),
            }),
    {
        Color {
            r: gamma_channel(self.r),
            g: gamma_channel(self.g),
            b: gamma_channel(self.b),
        }
    }

    /// Multiplies the color by the nonnegative scalar `num / den`:
    /// each channel becomes the truncation of `channel * num / den`,
    /// saturated at 255.
    pub fn scale(self, num: u32, den: u32) -> (c: Color)
        requires
            den > 0,
        ensures
            c == spec_scale(self, num, den),
    {
        Color {
            r: scale_channel(self.r, num, den),
            g: scale_channel(self.g, num, den),
            b: scale_channel(self.b, num, den),
        }
    }

    /// Divides the color by the positive integer `den`; the exact
    /// counterpart of `scale` with a unit numerator.
    pub fn div_by(self, den: u32) -> (c: Color)
        requires
            den >= 1,
        ensures
            c == spec_scale(self, 1, den),
    {
        self.scale(1, den)
    }
}

impl Default for Color {
    /// The default color is opaque black.
    fn default() -> (c: Color)
        ensures
            c == black(),
    {
        Color { r: 0, g: 0, b: 0 }
    }
}

/// Law: a scalar strictly below 1/255 scales every color to black.
/// (At the scalar exactly 1/255 a channel value of 255 scales to 1.)
pub proof fn lemma_scale_small_is_black(c: Color, num: u32, den: u32)
    requires
        den > 0,
        255 * num < den,
    ensures
        spec_scale(c, num, den) == black(),
{
    lemma_mul_inequality(c.r as int, 255, num as int);
    lemma_mul_inequality(c.g as int, 255, num as int);
    lemma_mul_inequality(c.b as int, 255, num as int);
    vstd::arithmetic::mul::lemma_mul_nonnegative(c.r as int, num as int);
    vstd::arithmetic::mul::lemma_mul_nonnegative(c.g as int, num as int);
    vstd::arithmetic::mul::lemma_mul_nonnegative(c.b as int, num as int);
    vstd::arithmetic::div_mod::lemma_basic_div(c.r as int * num as int, den as int);
    vstd::arithmetic::div_mod::lemma_basic_div(c.g as int * num as int, den as int);
    vstd::arithmetic::div_mod::lemma_basic_div(c.b as int * num as int, den as int);
}

/// Law: scaling by the ratio 1/1 is the identity.
pub proof fn lemma_scale_by_one(c: Color)
    ensures
        spec_scale(c, 1, 1) == c,
{
}

/// Law: dividing a channel by `den` is the multiplicative inverse of
/// scaling by `den`, within one rounding step: multiplying the quotient
/// back by `den` lands at most `den - 1` below the starting value.
pub proof fn lemma_div_is_inverse_within_rounding(v: u8, den: u32)
    requires
        den >= 1,
    ensures
        spec_scale_channel(v, 1, den) as int * den as int <= v as int,
        (v as int) < spec_scale_channel(v, 1, den) as int * den as int + den as int,
{
    let q = (v as int) / (den as int);
    lemma_div_nonincreasing(v as int, den as int);
    vstd::arithmetic::div_mod::lemma_div_pos_is_pos(v as int, den as int);
    assert(0 <= q <= 255);
    assert(spec_scale_channel(v, 1, den) as int == q);
    lemma_fundamental_div_mod(v as int, den as int);
    assert(v as int == den as int * q + (v as int) % (den as int));
    assert(0 <= (v as int) % (den as int) < den as int) by {
        vstd::arithmetic::div_mod::lemma_mod_bound(v as int, den as int);
    }
    assert(q * den as int == den as int * q) by {
        vstd::arithmetic::mul::lemma_mul_is_commutative(q, den as int);
    }
}

/// Law: a larger divisor never yields a larger channel value.
pub proof fn lemma_div_antitone(v: u8, d1: u32, d2: u32)
    requires
        1 <= d1 <= d2,
    ensures
        spec_scale_channel(v, 1, d2) <= spec_scale_channel(v, 1, d1),
{
    lemma_div_is_ordered_by_denominator(v as int, d1 as int, d2 as int);
    lemma_div_nonincreasing(v as int, d1 as int);
    lemma_div_nonincreasing(v as int, d2 as int);
}

} // verus!
