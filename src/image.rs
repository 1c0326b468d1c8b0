//! A luminance image: a grid of pixels, fed pixel by pixel or byte by byte.

use vstd::prelude::*;

use itertools::Itertools;

use crate::engine::GlyphRenderingEngine;
use crate::glyph::{glyph_text, lemma_glyph_text, Glyph};
use crate::grid::{grid_text, grid_took, lemma_grid_text, GlyphGrid};
use crate::pixel::{rec709_luma, LumaPixel, RgbPixel};

verus! {

/// How many bytes make up one colour pixel.
pub const CHANNEL_SIZE: usize = 3;

/// Relies on itertools' `Itertools::collect_array`: `Some` exactly when the
/// iterator yields as many items as the array holds, and then those items in
/// order.
#[verifier::external_body]
fn collect_triple(bytes: &Vec<u8>) -> (r: Option<[u8; 3]>)
    ensures
        r is Some <==> bytes@.len() == 3,
        r matches Some(a) ==> a@ == bytes@,
{
    bytes.iter().copied().collect_array::<3>()
}

/// The pixels among the glyphs, in order.
pub open spec fn pixel_leaves(cells: Seq<Glyph>) -> Seq<LumaPixel>
    decreases cells.len(),
{
    if cells.len() == 0 {
        Seq::empty()
    } else {
        let before = pixel_leaves(cells.drop_last());
        match cells.last() {
            Glyph::Pixel(p) => before.push(p),
            _ => before,
        }
    }
}

/// `after` is `before` having taken `child` into its grid; the bytes of a
/// pixel still to come stay as they were.
pub open spec fn image_took(before: LumaImage, after: LumaImage, child: Glyph) -> bool {
    &&& after.pending() == before.pending()
    &&& grid_took(before.grid(), after.grid(), child)
}

/// The pixel of a colour given as three bytes.
pub open spec fn pixel_of_bytes(r: u8, g: u8, b: u8) -> Glyph {
    Glyph::Pixel(LumaPixel { y: rec709_luma(r, g, b) as u8 })
}

/// An image renders to the text of its grid; when that grid is well formed,
/// to its pixels laid out row by row.
pub proof fn lemma_image_text<E: GlyphRenderingEngine>(im: LumaImage, e: E)
    ensures
        glyph_text(Glyph::Image(im), e) == glyph_text(Glyph::Grid(im.grid()), e),
        im.grid().well_formed() ==> glyph_text(Glyph::Image(im), e) == grid_text(
            im.grid().cells(),
            im.grid().width(),
            im.grid().height(),
            e,
        ),
{
    lemma_glyph_text(Glyph::Image(im), e);
    if im.grid().well_formed() {
        lemma_grid_text(im.grid(), e);
    }
}

/// A grid of luminance pixels, with the colour bytes of a pixel still to come.
#[derive(Debug)]
pub struct LumaImage {
    pub(crate) width: usize,
    pub(crate) height: usize,
    pub(crate) pixels: GlyphGrid,
    pub(crate) channel_buffer: Vec<u8>,
}

impl LumaImage {
    #[verifier::type_invariant]
    spec fn well_formed(self) -> bool {
        &&& self.width * self.height <= usize::MAX
        &&& self.pixels.width() == self.width
        &&& self.pixels.height() == self.height
        &&& self.channel_buffer@.len() < CHANNEL_SIZE
    }

    /// The grid that holds the pixels.
    pub closed spec fn grid(&self) -> GlyphGrid {
        self.pixels
    }

    /// The bytes of the next colour pixel that have come so far.
    pub closed spec fn pending(&self) -> Seq<u8> {
        self.channel_buffer@
    }

    /// An empty image `width` pixels wide and `height` high.
    pub fn new(width: usize, height: usize) -> (r: Self)
        requires
            width * height <= usize::MAX,
        ensures
            r.grid().width() == width,
            r.grid().height() == height,
            r.grid().cells() == Seq::<Glyph>::empty(),
            r.pending() == Seq::<u8>::empty(),
            r.grid().well_formed(),
    {
        let pixels = GlyphGrid::new(width, height);
        proof {
            use_type_invariant(&pixels);
        }
        LumaImage { width, height, pixels, channel_buffer: Vec::with_capacity(CHANNEL_SIZE) }
    }

    /// An image with no room, to stand in while the parts of another are
    /// worked on.
    fn placeholder() -> (r: Self) {
        LumaImage {
            width: 0,
            height: 0,
            pixels: GlyphGrid::new(0, 0),
            channel_buffer: Vec::new(),
        }
    }

    /// Whether the image holds as many pixels as it can.
    pub fn is_full(&self) -> (r: bool)
        ensures
            r == (self.grid().cells().len() >= self.grid().capacity()),
    {
        proof {
            use_type_invariant(self);
        }
        self.pixels.elements_count() >= self.width * self.height
    }

    /// Takes `child` into the next free cell, row by row; ignored once the
    /// image is full.
    pub fn add_child(&mut self, child: Glyph)
        ensures
            image_took(*old(self), *final(self), child),
            old(self).pending().len() < CHANNEL_SIZE,
            final(self).pending().len() < CHANNEL_SIZE,
    {
        proof {
            use_type_invariant(&*self);
        }
        let mut taken = Self::placeholder();
        std::mem::swap(self, &mut taken);
        let LumaImage { width, height, mut pixels, channel_buffer } = taken;
        pixels.add_child(child);
        *self = LumaImage { width, height, pixels, channel_buffer };
    }

    /// An image hands out no child to change in place.
    pub fn get_child_mut(&mut self, index: usize) -> (r: Option<&mut Glyph>)
        ensures
            r is None,
            *final(self) == *old(self),
    {
        None
    }

    /// The text of the grid of pixels.
    pub fn as_text<E: GlyphRenderingEngine>(&self, engine: &E) -> (r: String)
        ensures
            r@ == glyph_text(Glyph::Image(*self), *engine),
            r@ == grid_text(
                self.grid().cells(),
                self.grid().width(),
                self.grid().height(),
                *engine,
            ),
        decreases self,
    {
        proof {
            lemma_glyph_text(Glyph::Image(*self), *engine);
        }
        self.pixels.as_text(engine)
    }

    /// Takes one colour byte; every third byte completes a colour, whose
    /// luminance pixel then goes into the next free cell, unless the image is
    /// full.
    pub fn add_raw_byte(&mut self, byte: u8)
        ensures
            old(self).pending().len() < CHANNEL_SIZE,
            final(self).pending().len() < CHANNEL_SIZE,
            old(self).pending().len() + 1 < CHANNEL_SIZE ==> final(self).pending() == old(
                self,
            ).pending().push(byte) && final(self).grid() == old(self).grid(),
            old(self).pending().len() + 1 == CHANNEL_SIZE ==> final(self).pending()
                == Seq::<u8>::empty() && grid_took(
                old(self).grid(),
                final(self).grid(),
                pixel_of_bytes(old(self).pending()[0], old(self).pending()[1], byte),
            ),
    {
        proof {
            use_type_invariant(&*self);
        }
        let mut taken = Self::placeholder();
        std::mem::swap(self, &mut taken);
        let LumaImage { width, height, mut pixels, mut channel_buffer } = taken;
        channel_buffer.push(byte);
        if channel_buffer.len() == CHANNEL_SIZE {
            if let Some(triple) = collect_triple(&channel_buffer) {
                let pixel = LumaPixel::from_rgb(RgbPixel::from_slice(triple));
                pixels.add_child(Glyph::Pixel(pixel));
            }
            channel_buffer.clear();
        }
        *self = LumaImage { width, height, pixels, channel_buffer };
    }

    /// The pixels that the image holds, row by row.
    pub fn pixels(&self) -> (r: Vec<LumaPixel>)
        ensures
            r@ == pixel_leaves(self.grid().cells()),
    {
        let mut out: Vec<LumaPixel> = Vec::new();
        let n = self.pixels.elements_count();
        let mut i: usize = 0;
        while i < n
            invariant
                n == self.pixels.cells().len(),
                i <= n,
                out@ == pixel_leaves(self.pixels.cells().subrange(0, i as int)),
            decreases n - i,
        {
            let ghost cells = self.pixels.cells();
            proof {
                assert(cells.subrange(0, i + 1).drop_last() =~= cells.subrange(0, i as int));
            }
            match self.pixels.child_at(i) {
                Some(Glyph::Pixel(p)) => out.push(*p),
                _ => {},
            }
            i += 1;
        }
        assert(self.pixels.cells().subrange(0, i as int) =~= self.pixels.cells());
        out
    }
}

} // verus!
