//! Frames of a video: rendering a luminance plane, fitting a frame to the
//! terminal, and pacing playback.

use vstd::prelude::*;

use crate::engine::GlyphRenderingEngine;
use crate::glyph::{glyph_text, lemma_glyph_text, texts, Glyph};
use crate::grid::{grid_text, lemma_cell_position, row_cells};
use crate::image::LumaImage;
use crate::pixel::LumaPixel;
use crate::text::{join_lines, lemma_concat_singletons};

verus! {

/// The terminal size to assume when it cannot be probed.
pub const DEFAULT_TERMINAL_WIDTH: u32 = 80;

pub const DEFAULT_TERMINAL_HEIGHT: u32 = 24;

/// The time between frames when the stream gives no usable frame rate:
/// 25 frames a second.
pub const DEFAULT_FRAME_NANOS: u64 = 40_000_000;

/// The byte of a luminance plane at column `x` of row `y`.
pub open spec fn plane_byte(data: Seq<u8>, stride: nat, x: int, y: int) -> u8 {
    data[y * stride + x]
}

/// The text of a luminance plane `width` by `height`, whose rows start
/// `stride` bytes apart: one line per row, one character per byte.
pub open spec fn plane_text<E: GlyphRenderingEngine>(
    data: Seq<u8>,
    stride: nat,
    width: nat,
    height: nat,
    e: E,
) -> Seq<char> {
    join_lines(
        Seq::new(
            height,
            |y: int| Seq::new(width, |x: int| e.spec_char_for(plane_byte(data, stride, x, y))),
        ),
    )
}

/// The first `n` pixels of a luminance plane `width` wide, row by row.
spec fn plane_cells(data: Seq<u8>, stride: nat, width: nat, n: nat) -> Seq<Glyph> {
    Seq::new(
        n,
        |i: int|
            Glyph::Pixel(
                LumaPixel {
                    y: plane_byte(data, stride, i % width as int, i / width as int),
                },
            ),
    )
}

/// Renders a single-plane luminance frame: each byte becomes a pixel of an
/// image of the frame's size, and the image is rendered.
pub fn render_luma_frame<E: GlyphRenderingEngine>(
    data: &[u8],
    stride: usize,
    width: usize,
    height: usize,
    engine: &E,
) -> (r: String)
    requires
        width * height <= usize::MAX,
        width > 0 && height > 0 ==> (height - 1) * stride + width <= data@.len(),
    ensures
        r@ == plane_text(data@, stride as nat, width as nat, height as nat, *engine),
{
    let data_len: usize = data.len();
    let mut image = LumaImage::new(width, height);
    let mut y: usize = 0;
    while y < height
        invariant
            width * height <= usize::MAX,
            width > 0 && height > 0 ==> (height - 1) * stride + width <= data@.len(),
            data_len == data@.len(),
            y <= height,
            image.grid().width() == width,
            image.grid().height() == height,
            image.grid().cells() == plane_cells(
                data@,
                stride as nat,
                width as nat,
                (y * width) as nat,
            ),
        decreases height - y,
    {
        assert(y * width + width <= width * height) by (nonlinear_arith)
            requires
                y < height,
        ;
        if width > 0 {
            assert(y * stride <= (height - 1) * stride) by (nonlinear_arith)
                requires
                    y <= height - 1,
            ;
            assert(y * stride + width <= data_len);
            let row_start: usize = y * stride;
            let mut x: usize = 0;
            while x < width
                invariant
                    width * height <= usize::MAX,
                    y < height,
                    x <= width,
                    y * width + width <= width * height,
                    row_start == y * stride,
                    row_start + width <= data_len,
                    data_len == data@.len(),
                    image.grid().width() == width,
                    image.grid().height() == height,
                    image.grid().cells() == plane_cells(
                        data@,
                        stride as nat,
                        width as nat,
                        (y * width + x) as nat,
                    ),
                decreases width - x,
            {
                let pixel = LumaPixel::new(data[row_start + x]);
                image.add_child(Glyph::Pixel(pixel));
                proof {
                    let n = (y * width + x) as nat;
                    lemma_cell_position(y as int, x as int, width as int);
                    assert(plane_cells(data@, stride as nat, width as nat, n + 1) =~= plane_cells(
                        data@,
                        stride as nat,
                        width as nat,
                        n,
                    ).push(Glyph::Pixel(pixel)));
                }
                x += 1;
            }
        }
        assert(y * width + width == (y + 1) * width) by (nonlinear_arith);
        y += 1;
    }
    let text = image.as_text(engine);
    proof {
        let cells = image.grid().cells();
        assert(cells.len() == width * height) by (nonlinear_arith)
            requires
                cells.len() == y * width,
                y == height,
        ;
        let w = width as nat;
        let by_rows = Seq::new(
            height as nat,
            |r: int| crate::text::concat_all(texts(row_cells(cells, w, r), *engine)),
        );
        let expected = Seq::new(
            height as nat,
            |r: int|
                Seq::new(
                    w,
                    |x: int| engine.spec_char_for(plane_byte(data@, stride as nat, x, r)),
                ),
        );
        assert forall|r: int| 0 <= r < height implies by_rows[r] == expected[r] by {
            let wi = width as int;
            assert(r * wi + wi <= wi * height) by (nonlinear_arith)
                requires
                    0 <= r < height,
                    0 <= wi,
            ;
            assert(0 <= r * wi) by (nonlinear_arith)
                requires
                    0 <= r,
                    0 <= wi,
            ;
            let row = texts(row_cells(cells, w, r), *engine);
            assert forall|x: int| 0 <= x < row.len() implies #[trigger] row[x] == seq![
                expected[r][x],
            ] by {
                lemma_cell_position(r, x, wi);
                lemma_glyph_text(cells[r * wi + x], *engine);
            }
            lemma_concat_singletons(row, expected[r]);
        }
        assert(by_rows =~= expected);
    }
    text
}

/// A probed terminal size, taken as at least one by one.
pub open spec fn probed_size(w: u16, h: u16) -> (u32, u32) {
    (if w >= 1 { w as u32 } else { 1 }, if h >= 1 { h as u32 } else { 1 })
}

/// The terminal size from a probe, at least one by one; the default size
/// when the probe failed.
pub fn terminal_size_or_default(probe: Option<(u16, u16)>) -> (r: (u32, u32))
    ensures
        probe matches Some((w, h)) ==> r == probed_size(w, h),
        probe is None ==> r == (DEFAULT_TERMINAL_WIDTH, DEFAULT_TERMINAL_HEIGHT),
{
    match probe {
        Some((w, h)) => (
            if w >= 1 {
                w as u32
            } else {
                1
            },
            if h >= 1 {
                h as u32
            } else {
                1
            },
        ),
        None => (DEFAULT_TERMINAL_WIDTH, DEFAULT_TERMINAL_HEIGHT),
    }
}

/// The terminal size after a new probe, and whether it changed: a failed
/// probe keeps the size known so far.
pub fn refresh_terminal_size(current: (u32, u32), probe: Option<(u16, u16)>) -> (r: (
    (u32, u32),
    bool,
))
    ensures
        probe is None ==> r == (current, false),
        probe matches Some((w, h)) ==> r.0 == probed_size(w, h) && r.1 == (r.0 != current),
{
    match probe {
        Some(_) => {
            let size = terminal_size_or_default(probe);
            let changed = size.0 != current.0 || size.1 != current.1;
            (size, changed)
        },
        None => (current, false),
    }
}

/// The size that fits a frame `source_width` by `source_height` into a
/// terminal `term_width` by `term_height` keeping the frame's aspect ratio:
/// a frame wider than the terminal takes its full width, any other its full
/// height; the other side is rounded down.
pub open spec fn fitted_size(
    source_width: int,
    source_height: int,
    term_width: int,
    term_height: int,
) -> (int, int) {
    if source_width * term_height > term_width * source_height {
        (term_width, term_width * source_height / source_width)
    } else {
        (term_height * source_width / source_height, term_height)
    }
}

/// Fits a frame into the terminal, keeping the frame's aspect ratio.
pub fn fit_to_terminal(source_width: u32, source_height: u32, term_width: u32, term_height: u32) -> (r: (
    u32,
    u32,
))
    requires
        source_height > 0,
        term_height > 0,
    ensures
        (r.0 as int, r.1 as int) == fitted_size(
            source_width as int,
            source_height as int,
            term_width as int,
            term_height as int,
        ),
{
    let sw = source_width as u64;
    let sh = source_height as u64;
    let tw = term_width as u64;
    let th = term_height as u64;
    assert(sw * th <= 0xffff_ffff * 0xffff_ffff) by (nonlinear_arith)
        requires
            sw <= 0xffff_ffff,
            th <= 0xffff_ffff,
    ;
    assert(tw * sh <= 0xffff_ffff * 0xffff_ffff) by (nonlinear_arith)
        requires
            tw <= 0xffff_ffff,
            sh <= 0xffff_ffff,
    ;
    if sw * th > tw * sh {
        assert(sw > 0) by (nonlinear_arith)
            requires
                sw * th > tw * sh,
                tw * sh >= 0,
        ;
        let height = tw * sh / sw;
        assert((tw * sh) as int / sw as int <= th as int) by (nonlinear_arith)
            requires
                sw * th > tw * sh,
                sw > 0,
        ;
        (term_width, height as u32)
    } else {
        let width = th * sw / sh;
        assert((th * sw) as int / sh as int <= tw as int) by (nonlinear_arith)
            requires
                sw * th <= tw * sh,
                sh > 0,
        ;
        (width as u32, term_height)
    }
}

/// The time between frames at a frame rate of `numerator / denominator`
/// frames a second, in nanoseconds rounded down; the default when either
/// part is not positive.
pub fn frame_period_nanos(numerator: i32, denominator: i32) -> (r: u64)
    ensures
        numerator > 0 && denominator > 0 ==> r as int == denominator as int * 1_000_000_000 / numerator as int,
        !(numerator > 0 && denominator > 0) ==> r == DEFAULT_FRAME_NANOS,
{
    if numerator > 0 && denominator > 0 {
        (denominator as u64 * 1_000_000_000) / numerator as u64
    } else {
        DEFAULT_FRAME_NANOS
    }
}

} // verus!
