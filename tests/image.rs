use std::collections::VecDeque;

use glyphforge::engine::{GlyphEngineAsciiImpl, GlyphRenderingEngine};
use glyphforge::glyph::Glyph;
use glyphforge::image::LumaImage;
use glyphforge::pixel::LumaPixel;

#[test]
fn should_operate_as_glyph_composite() {
    let engine: DummyEngine = DummyEngine;
    let mut image: LumaImage = LumaImage::new(1, 1);

    image.add_child(Glyph::Pixel(LumaPixel::new(255)));
    image.add_child(Glyph::Pixel(LumaPixel::new(255)));
    image.add_child(Glyph::Pixel(LumaPixel::new(255)));

    assert_eq!(image.as_text(&engine), "X");
}

struct DummyEngine;

impl GlyphRenderingEngine for DummyEngine {
    fn spec_char_for(&self, _y: u8) -> char {
        'X'
    }

    fn get_char_based_on_luma_value(&self, _y: u8) -> char {
        'X'
    }
}

#[test]
fn should_create_from_raw_rgb_iteratively() {
    let mut raw_rgb: VecDeque<u8> = VecDeque::from([
        255, 0, 0, // Red
        0, 255, 0, // Green
        0, 0, 255, // Blue
    ]);

    let expected_pixels: Vec<LumaPixel> = vec![
        54_u8,  // Luma for Red
        182_u8, // Luma for Green
        18_u8,  // Luma for Blue
    ]
    .into_iter()
    .map(LumaPixel::new)
    .collect();

    let mut image: LumaImage = LumaImage::new(3, 1);

    while !image.is_full() {
        if let Some(byte) = raw_rgb.pop_front() {
            image.add_raw_byte(byte)
        } else {
            break;
        }
    }

    assert_eq!(image.pixels(), expected_pixels);
}

#[test]
fn raw_bytes_fill_a_full_image() {
    let mut image = LumaImage::new(3, 1);
    for byte in [255, 0, 0, 0, 255, 0, 0, 0, 255] {
        assert!(!image.is_full());
        image.add_raw_byte(byte);
    }
    assert!(image.is_full());
    let ys: Vec<u8> = image.pixels().iter().map(|p| p.y).collect();
    assert_eq!(ys, vec![54, 182, 18]);
    let engine = GlyphEngineAsciiImpl::new();
    assert_eq!(image.as_text(&engine), ":# ");
}

#[test]
fn trailing_bytes_of_an_incomplete_colour_are_held_back() {
    let mut image = LumaImage::new(2, 1);
    for byte in [255, 255, 255, 7, 7] {
        image.add_raw_byte(byte);
    }
    assert!(!image.is_full());
    assert_eq!(image.pixels(), vec![LumaPixel::new(255)]);
    image.add_raw_byte(7);
    assert!(image.is_full());
    assert_eq!(image.pixels(), vec![LumaPixel::new(255), LumaPixel::new(7)]);
    for byte in [1, 2, 3] {
        image.add_raw_byte(byte);
    }
    assert_eq!(image.pixels().len(), 2);
}

#[test]
fn image_rows_fill_in_order() {
    let engine = GlyphEngineAsciiImpl::new();
    let mut image = LumaImage::new(2, 2);
    for y in [0, 255, 128, 64, 30] {
        image.add_child(Glyph::Pixel(LumaPixel::new(y)));
    }
    assert!(image.is_full());
    assert!(image.get_child_mut(0).is_none());
    assert_eq!(image.as_text(&engine), " @\n+:");
    let mut as_glyph = Glyph::Image(LumaImage::new(1, 1));
    as_glyph.add_child(Glyph::Text("hi".to_string()));
    assert_eq!(as_glyph.as_text(&engine), "hi");
}
