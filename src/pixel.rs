//! Pixels: colour triples and 8-bit luminance values.

use vstd::prelude::*;

use crate::engine::GlyphRenderingEngine;
use crate::glyph::Glyph;
use crate::text::push_char;

verus! {

/// A colour as red, green and blue intensities.
#[derive(Debug, Clone, Copy, PartialEq, Eq, Structural)]
pub struct RgbPixel {
    pub r: u8,
    pub g: u8,
    pub b: u8,
}

impl RgbPixel {
    pub fn new(r: u8, g: u8, b: u8) -> (p: Self)
        ensures
            p.r == r,
            p.g == g,
            p.b == b,
    {
        RgbPixel { r, g, b }
    }

    /// The pixel of the triple `[r, g, b]`.
    pub fn from_slice(i: [u8; 3]) -> (p: Self)
        ensures
            p.r == i@[0],
            p.g == i@[1],
            p.b == i@[2],
    {
        Self::new(i[0], i[1], i[2])
    }
}

/// The Rec. 709 luminance of a colour, in fixed point with weights out of
/// ten thousand, rounded down.
pub open spec fn rec709_luma(r: u8, g: u8, b: u8) -> int {
    (2126 * r + 7152 * g + 722 * b) / 10000
}

/// The luminance of every colour fits in a byte.
pub proof fn lemma_luma_fits_byte(r: u8, g: u8, b: u8)
    ensures
        0 <= rec709_luma(r, g, b) <= 255,
        rec709_luma(r, g, b) % 256 == rec709_luma(r, g, b),
{
    assert(2126 * r + 7152 * g + 722 * b <= 2550000);
}

/// An 8-bit luminance.
#[derive(Debug, Clone, Copy, PartialEq, Eq, Structural)]
pub struct LumaPixel {
    pub y: u8,
}

impl LumaPixel {
    pub fn new(y: u8) -> (p: Self)
        ensures
            p.y == y,
    {
        LumaPixel { y }
    }

    /// The luminance of a colour.
    pub fn from_rgb(rgb: RgbPixel) -> (p: Self)
        ensures
            p.y as int == rec709_luma(rgb.r, rgb.g, rgb.b),
    {
        proof {
            lemma_luma_fits_byte(rgb.r, rgb.g, rgb.b);
        }
        let weighted: u32 = 2126 * rgb.r as u32 + 7152 * rgb.g as u32 + 722 * rgb.b as u32;
        let luma_value: u8 = (weighted / 10000) as u8;
        LumaPixel { y: luma_value }
    }

    /// The engine's character for this luminance, as a text of one character.
    pub fn as_text<E: GlyphRenderingEngine>(&self, engine: &E) -> (r: String)
        ensures
            r@ == seq![engine.spec_char_for(self.y)],
    {
        let c = engine.get_char_based_on_luma_value(self.y);
        let mut out = String::new();
        push_char(&mut out, c);
        assert(out@ =~= seq![c]);
        out
    }

    /// A leaf ignores children.
    pub fn add_child(&mut self, child: Glyph)
        ensures
            *final(self) == *old(self),
    {
    }

    /// A leaf has no children.
    pub fn get_child_mut(&mut self, index: usize) -> (r: Option<&mut Glyph>)
        ensures
            r is None,
            *final(self) == *old(self),
    {
        None
    }
}

} // verus!
