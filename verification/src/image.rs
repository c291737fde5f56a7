//! The fixed 8x8 pixel buffer, stored row-major, with pixel access by
//! (row, column) and a raw-byte view of exactly 192 bytes, three bytes per
//! pixel in R, G, B order. The byte view aliases the pixel storage through
//! bounds-checked indexing: no copy, no layout transformation.

use crate::color::black;
use crate::color::spec_scale;
use crate::color::Color;
use vstd::arithmetic::div_mod::lemma_fundamental_div_mod;
use vstd::prelude::*;
use vstd::slice::slice_subrange;

verus! {

/// Exactly 64 colors, row-major: pixel (row, col) sits at index
/// `8 * row + col`.
pub struct Image {
    pixels: Vec<Color>,
}

impl View for Image {
    type V = Seq<Color>;

    closed spec fn view(&self) -> Seq<Color> {
        self.pixels@
    }
}

/// Channel `k` (0 = red, 1 = green, 2 = blue) of one color.
pub open spec fn spec_byte_of(c: Color, k: int) -> u8 {
    if k == 0 {
        c.r
    } else if k == 1 {
        c.g
    } else {
        c.b
    }
}

/// The raw-byte view of a pixel sequence: three bytes per pixel,
/// R, G, B consecutive, in pixel order.
pub open spec fn byte_view(s: Seq<Color>) -> Seq<u8> {
    Seq::new(3 * s.len(), |i: int| spec_byte_of(s[i / 3], i % 3))
}

/// The pixel sequence described by a flat byte sequence, three bytes per
/// pixel in R, G, B order.
pub open spec fn colors_of_bytes(b: Seq<u8>) -> Seq<Color> {
    Seq::new(b.len() / 3, |p: int| (Color { r: b[3 * p], g: b[3 * p + 1], b: b[3 * p + 2] }))
}

/// One color with channel `k` (0 = red, 1 = green, 2 = blue) replaced.
pub open spec fn spec_put_byte(c: Color, k: int, v: u8) -> Color {
    if k == 0 {
        Color { r: v, g: c.g, b: c.b }
    } else if k == 1 {
        Color { r: c.r, g: v, b: c.b }
    } else {
        Color { r: c.r, g: c.g, b: v }
    }
}

impl Image {
    #[verifier::type_invariant]
    spec fn type_inv(&self) -> bool {
        self.pixels@.len() == 64
    }

    /// An image filled with one color.
    pub fn new_solid(color: Color) -> (img: Image)
        ensures
            img@.len() == 64,
            forall|i: int| 0 <= i < 64 ==> img@[i] == color,
    {
        let mut pixels: Vec<Color> = Vec::new();
        let mut n: usize = 0;
        while n < 64
            invariant
                n <= 64,
                pixels@.len() == n,
                forall|i: int| 0 <= i < n ==> pixels@[i] == color,
            decreases 64 - n,
        {
            pixels.push(color);
            n += 1;
        }
        Image { pixels }
    }

    /// Read-only access to one row as a contiguous sequence of 8 colors.
    pub fn row(&self, row: usize) -> (r: &[Color])
        requires
            row < 8,
        ensures
            r@ == self@.subrange(8 * row, 8 * row + 8),
    {
        proof {
            use_type_invariant(self);
        }
        slice_subrange(self.pixels.as_slice(), 8 * row, 8 * row + 8)
    }

    /// The color at (row, col).
    pub fn pixel(&self, row: usize, col: usize) -> (c: Color)
        requires
            row < 8,
            col < 8,
        ensures
            c == self@[8 * row + col],
    {
        proof {
            use_type_invariant(self);
        }
        self.pixels[8 * row + col]
    }

    /// Replaces the color at (row, col).
    pub fn set_pixel(&mut self, row: usize, col: usize, c: Color)
        requires
            row < 8,
            col < 8,
        ensures
            final(self)@ == old(self)@.update(8 * row + col, c),
    {
        proof {
            use_type_invariant(&*self);
        }
        self.pixels[8 * row + col] = c;
    }

    /// Byte `pos` of the raw-byte view: channel `pos % 3` of pixel
    /// `pos / 3`.
    pub fn get_byte(&self, pos: usize) -> (b: u8)
        requires
            pos < 192,
        ensures
            b == byte_view(self@)[pos as int],
    {
        proof {
            use_type_invariant(self);
        }
        let p: usize = pos / 3;
        let k: usize = pos % 3;
        let c = self.pixels[p];
        if k == 0 {
            c.r
        } else if k == 1 {
            c.g
        } else {
            c.b
        }
    }

    /// Writes byte `pos` of the raw-byte view, leaving every other byte
    /// of the view unchanged.
    pub fn set_byte(&mut self, pos: usize, v: u8)
        requires
            pos < 192,
        ensures
            final(self)@ == old(self)@.update(pos as int / 3, spec_put_byte(old(self)@[pos as int / 3], pos as int % 3, v)),
            byte_view(final(self)@) == byte_view(old(self)@).update(pos as int, v),
    {
        proof {
            use_type_invariant(&*self);
        }
        let p: usize = pos / 3;
        let k: usize = pos % 3;
        let c = self.pixels[p];
        let c2 = if k == 0 {
            Color { r: v, g: c.g, b: c.b }
        } else if k == 1 {
            Color { r: c.r, g: v, b: c.b }
        } else {
            Color { r: c.r, g: c.g, b: v }
        };
        self.pixels[p] = c2;
        proof {
            let s0 = old(self)@;
            let s1 = self@;
            assert forall|j: int| 0 <= j < 192 implies byte_view(s1)[j] == byte_view(s0).update(
                pos as int,
                v,
            )[j] by {
                lemma_fundamental_div_mod(j, 3);
                lemma_fundamental_div_mod(pos as int, 3);
            }
            assert(byte_view(s1) =~= byte_view(s0).update(pos as int, v));
        }
    }

    /// A gradient from the given color toward black: pixel (row, col) is
    /// the color divided by `1 + row * row + col`. At (0, 0) the divisor
    /// is 1, so the corner pixel is exactly the given color.
    pub fn gradient(color: Color) -> (img: Image)
        ensures
            img@.len() == 64,
            forall|i: int| 0 <= i < 64 ==> #[trigger] img@[i] == spec_gradient_at(color, i),
    {
        let mut img = Image::new_solid(Color { r: 0, g: 0, b: 0 });
        let mut pos: usize = 0;
        while pos < 64
            invariant
                pos <= 64,
                img@.len() == 64,
                forall|i: int| 0 <= i < pos ==> #[trigger] img@[i] == spec_gradient_at(color, i),
            decreases 64 - pos,
        {
            let row: usize = pos / 8;
            let col: usize = pos % 8;
            proof {
                lemma_fundamental_div_mod(pos as int, 8);
                vstd::arithmetic::mul::lemma_mul_upper_bound(row as int, 7, row as int, 7);
                vstd::arithmetic::mul::lemma_mul_nonnegative(row as int, row as int);
            }
            let d: u32 = 1 + (row * row + col) as u32;
            img.set_pixel(row, col, color.div_by(d));
            pos += 1;
        }
        img
    }
}

/// The gradient color at row-major index `i`: the base color divided by
/// `1 + row * row + col` where `row == i / 8` and `col == i % 8`.
pub open spec fn spec_gradient_at(color: Color, i: int) -> Color {
    spec_scale(color, 1, (1 + (i / 8) * (i / 8) + i % 8) as u32)
}

impl Default for Image {
    /// The default image is solid opaque black.
    fn default() -> (img: Image)
        ensures
            img@.len() == 64,
            forall|i: int| 0 <= i < 64 ==> img@[i] == black(),
    {
        Image::new_solid(Color { r: 0, g: 0, b: 0 })
    }
}

/// Law: the raw-byte view is a faithful aliasing of the pixels. Writing a
/// whole byte sequence as pixels and reading it back through the byte view
/// reproduces exactly the same bytes: no transformation, no reordering.
pub proof fn lemma_byte_view_roundtrip(b: Seq<u8>)
    requires
        b.len() % 3 == 0,
    ensures
        byte_view(colors_of_bytes(b)) == b,
{
    lemma_fundamental_div_mod(b.len() as int, 3);
    assert forall|i: int| 0 <= i < b.len() implies byte_view(colors_of_bytes(b))[i] == b[i] by {
        lemma_fundamental_div_mod(i, 3);
    }
    assert(byte_view(colors_of_bytes(b)) =~= b);
}

/// Law: the gradient's corner pixel (row 0, col 0) has divisor 1 and so
/// equals the base color exactly.
pub proof fn lemma_gradient_origin(color: Color)
    ensures
        spec_gradient_at(color, 0) == color,
{
    assert((0int / 8) * (0int / 8) == 0) by {
        vstd::arithmetic::mul::lemma_mul_by_zero_is_zero(0int / 8);
    }
    crate::color::lemma_scale_by_one(color);
}

/// Law: between two pixel positions, the one with the larger
/// `row * row + col` never has a larger channel value in the gradient.
pub proof fn lemma_gradient_non_increasing(color: Color, i: int, j: int)
    requires
        0 <= i < 64,
        0 <= j < 64,
        (i / 8) * (i / 8) + i % 8 <= (j / 8) * (j / 8) + j % 8,
    ensures
        spec_gradient_at(color, j).r <= spec_gradient_at(color, i).r,
        spec_gradient_at(color, j).g <= spec_gradient_at(color, i).g,
        spec_gradient_at(color, j).b <= spec_gradient_at(color, i).b,
{
    vstd::arithmetic::mul::lemma_mul_upper_bound(i / 8, 7, i / 8, 7);
    vstd::arithmetic::mul::lemma_mul_upper_bound(j / 8, 7, j / 8, 7);
    vstd::arithmetic::mul::lemma_mul_nonnegative(i / 8, i / 8);
    vstd::arithmetic::mul::lemma_mul_nonnegative(j / 8, j / 8);
    let di = (1 + (i / 8) * (i / 8) + i % 8) as u32;
    let dj = (1 + (j / 8) * (j / 8) + j % 8) as u32;
    crate::color::lemma_div_antitone(color.r, di, dj);
    crate::color::lemma_div_antitone(color.g, di, dj);
    crate::color::lemma_div_antitone(color.b, di, dj);
}

} // verus!
