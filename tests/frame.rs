use glyphforge::engine::GlyphEngineAsciiImpl;
use glyphforge::frame::{
    fit_to_terminal, frame_period_nanos, refresh_terminal_size, render_luma_frame,
    terminal_size_or_default,
};

#[test]
fn frame_rows_skip_the_padding_of_each_stride() {
    let engine = GlyphEngineAsciiImpl::new();
    let data = [0u8, 255, 9, 128, 64, 9];
    assert_eq!(render_luma_frame(&data, 3, 2, 2, &engine), " @\n+:");
}

#[test]
fn empty_frame_renders_empty() {
    let engine = GlyphEngineAsciiImpl::new();
    assert_eq!(render_luma_frame(&[], 0, 0, 0, &engine), "");
    assert_eq!(render_luma_frame(&[], 5, 0, 3, &engine), "\n\n");
}

#[test]
fn wide_frame_takes_the_terminal_width() {
    assert_eq!(fit_to_terminal(1000, 100, 80, 24), (80, 8));
}

#[test]
fn tall_frame_takes_the_terminal_height() {
    assert_eq!(fit_to_terminal(1920, 1080, 80, 24), (42, 24));
    assert_eq!(fit_to_terminal(80, 24, 80, 24), (80, 24));
}

#[test]
fn terminal_size_falls_back() {
    assert_eq!(terminal_size_or_default(None), (80, 24));
    assert_eq!(terminal_size_or_default(Some((0, 5))), (1, 5));
    assert_eq!(terminal_size_or_default(Some((120, 40))), (120, 40));
}

#[test]
fn terminal_resize_is_noticed() {
    assert_eq!(refresh_terminal_size((80, 24), None), ((80, 24), false));
    assert_eq!(refresh_terminal_size((80, 24), Some((80, 24))), ((80, 24), false));
    assert_eq!(refresh_terminal_size((80, 24), Some((100, 30))), ((100, 30), true));
    assert_eq!(refresh_terminal_size((1, 1), Some((0, 0))), ((1, 1), false));
}

#[test]
fn frame_period_from_rate() {
    assert_eq!(frame_period_nanos(25, 1), 40_000_000);
    assert_eq!(frame_period_nanos(30000, 1001), 33_366_666);
    assert_eq!(frame_period_nanos(0, 1), 40_000_000);
    assert_eq!(frame_period_nanos(25, 0), 40_000_000);
    assert_eq!(frame_period_nanos(-25, 1), 40_000_000);
}
