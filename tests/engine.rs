use glyphforge::engine::{GlyphEngineAsciiImpl, GlyphRenderingEngine};

#[test]
fn black_luma_value() {
    let engine: GlyphEngineAsciiImpl = GlyphEngineAsciiImpl::new();

    let result: char = engine.get_char_based_on_luma_value(0);

    assert_eq!(result, ' ');
}

#[test]
fn white_luma_value() {
    let engine: GlyphEngineAsciiImpl = GlyphEngineAsciiImpl::new();

    let result: char = engine.get_char_based_on_luma_value(255);

    assert_eq!(result, '@');
}

#[test]
fn mid_gray_luma_value() {
    let engine: GlyphEngineAsciiImpl = GlyphEngineAsciiImpl::new();

    let result: char = engine.get_char_based_on_luma_value(128);

    assert_eq!(result, '+');
}

#[test]
fn ascii_renderer_render_black_luma_value() {
    let renderer: GlyphEngineAsciiImpl = GlyphEngineAsciiImpl::new();

    let result: char = renderer.get_char_based_on_luma_value(0);

    assert_eq!(result, ' ');
}

#[test]
fn ascii_renderer_render_white_luma_value() {
    let renderer: GlyphEngineAsciiImpl = GlyphEngineAsciiImpl::new();

    let result: char = renderer.get_char_based_on_luma_value(255);

    assert_eq!(result, '@');
}

#[test]
fn ascii_renderer_render_mid_gray_luma_value() {
    let renderer: GlyphEngineAsciiImpl = GlyphEngineAsciiImpl::new();

    let result: char = renderer.get_char_based_on_luma_value(128);

    assert_eq!(result, '+');
}

#[test]
fn ascii_renderer_in_house_impl_render_black_luma_value() {
    let renderer: GlyphEngineAsciiImpl = GlyphEngineAsciiImpl::new();

    let result: char = renderer.get_char_based_on_luma_value(0);

    assert_eq!(result, ' ');
}

#[test]
fn ascii_renderer_in_house_impl_render_white_luma_value() {
    let renderer: GlyphEngineAsciiImpl = GlyphEngineAsciiImpl::new();

    let result: char = renderer.get_char_based_on_luma_value(255);

    assert_eq!(result, '@');
}

#[test]
fn ascii_renderer_in_house_impl_render_mid_gray_luma_value() {
    let renderer: GlyphEngineAsciiImpl = GlyphEngineAsciiImpl::new();

    let result: char = renderer.get_char_based_on_luma_value(128);

    assert_eq!(result, '+');
}

#[test]
fn ascii_renderer_standard_impl_render_black_luma_value() {
    let renderer: GlyphEngineAsciiImpl = GlyphEngineAsciiImpl::new();

    let result: char = renderer.get_char_based_on_luma_value(0);

    assert_eq!(result, ' ');
}

#[test]
fn ascii_renderer_standard_impl_render_white_luma_value() {
    let renderer: GlyphEngineAsciiImpl = GlyphEngineAsciiImpl::new();

    let result: char = renderer.get_char_based_on_luma_value(255);

    assert_eq!(result, '@');
}

#[test]
fn ascii_renderer_standard_impl_render_mid_gray_luma_value() {
    let renderer: GlyphEngineAsciiImpl = GlyphEngineAsciiImpl::new();

    let result: char = renderer.get_char_based_on_luma_value(128);

    assert_eq!(result, '+');
}

#[test]
fn canonical_ramp_buckets() {
    let engine = GlyphEngineAsciiImpl::new();
    let ramp = [' ', '.', ':', '-', '=', '+', '*', '#', '%', '@'];
    for y in 0..=255u8 {
        let index = (y as usize * 10) / 256;
        assert_eq!(engine.get_char_based_on_luma_value(y), ramp[index]);
    }
    assert_eq!(engine.get_char_based_on_luma_value(25), ' ');
    assert_eq!(engine.get_char_based_on_luma_value(26), '.');
    assert_eq!(engine.ramp_len(), 10);
}

#[test]
fn canonical_ramp_is_monotone() {
    let engine = GlyphEngineAsciiImpl::new();
    let ramp = [' ', '.', ':', '-', '=', '+', '*', '#', '%', '@'];
    let position = |c: char| ramp.iter().position(|r| *r == c).unwrap();
    for y in 0..255u8 {
        let a = position(engine.get_char_based_on_luma_value(y));
        let b = position(engine.get_char_based_on_luma_value(y + 1));
        assert!(a <= b);
    }
}

#[test]
fn custom_ramp_buckets() {
    let engine = GlyphEngineAsciiImpl::from_ramp(vec!['a', 'b', 'c', 'd']).unwrap();
    assert_eq!(engine.get_char_based_on_luma_value(0), 'a');
    assert_eq!(engine.get_char_based_on_luma_value(63), 'a');
    assert_eq!(engine.get_char_based_on_luma_value(64), 'b');
    assert_eq!(engine.get_char_based_on_luma_value(191), 'c');
    assert_eq!(engine.get_char_based_on_luma_value(192), 'd');
    assert_eq!(engine.get_char_based_on_luma_value(255), 'd');
}

#[test]
fn single_character_ramp() {
    let engine = GlyphEngineAsciiImpl::from_ramp(vec!['X']).unwrap();
    assert_eq!(engine.get_char_based_on_luma_value(0), 'X');
    assert_eq!(engine.get_char_based_on_luma_value(255), 'X');
}

#[test]
fn empty_ramp_is_refused() {
    assert!(GlyphEngineAsciiImpl::from_ramp(Vec::new()).is_none());
}
