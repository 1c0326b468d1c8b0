use glyphforge::engine::{GlyphEngineAsciiImpl, GlyphRenderingEngine};
use glyphforge::glyph::Glyph;
use glyphforge::grid::GlyphGrid;
use glyphforge::pixel::LumaPixel;

fn text(s: &str) -> Glyph {
    Glyph::Text(s.to_string())
}

struct DummyEngine;

impl GlyphRenderingEngine for DummyEngine {
    fn spec_char_for(&self, _luma: u8) -> char {
        panic!("Should not be called");
    }

    fn get_char_based_on_luma_value(&self, _luma: u8) -> char {
        panic!("Should not be called");
    }
}

#[test]
fn grid_operations() {
    let expected_output: &str = "XX\nXX";

    let engine = DummyEngine;
    let mut grid: GlyphGrid = GlyphGrid::new(2, 2);

    for _ in 0..3 {
        grid.add_child(text("X"));
        assert!(!grid.is_finished());
    }

    grid.add_child(text("X"));

    assert!(grid.is_finished());
    println!("{:?}", grid);
    let result: String = grid.as_text(&engine);

    assert_eq!(expected_output, result);
}

#[test]
fn image_to_ascii() {
    let expected_output: &str = "XX\nXX";

    let renderer = DummyEngine;
    let mut grid: GlyphGrid = GlyphGrid::new(2, 2);

    for _ in 0..3 {
        grid.add_child(text("X"));
        assert!(!grid.is_finished());
    }

    grid.add_child(text("X"));

    assert!(grid.is_finished());
    println!("{:?}", grid);
    let result: String = grid.as_text(&renderer);

    assert_eq!(expected_output, result);
}

#[test]
fn saturated_grid_ignores_more_children() {
    let engine = GlyphEngineAsciiImpl::new();
    let mut grid = GlyphGrid::new(2, 2);
    for _ in 0..4 {
        grid.add_child(text("X"));
    }
    grid.add_child(text("Y"));
    assert_eq!(grid.elements_count(), 4);
    assert_eq!(grid.as_text(&engine), "XX\nXX");
}

#[test]
fn three_by_three_grid_of_two_character_leaves() {
    let engine = GlyphEngineAsciiImpl::new();
    let mut grid = GlyphGrid::new(3, 3);
    for t in ["AA", "AB", "AC", "BA", "BB", "BC", "CA", "CB", "CC"] {
        grid.add_child(text(t));
    }
    assert!(grid.is_finished());
    assert_eq!(grid.as_text(&engine), "AAABAC\nBABBBC\nCACBCC");
}

#[test]
fn partly_filled_grid_fills_row_by_row() {
    let engine = GlyphEngineAsciiImpl::new();
    let mut grid = GlyphGrid::new(3, 3);
    assert_eq!(grid.as_text(&engine), "\n\n");
    for t in ["A", "B", "C", "D"] {
        grid.add_child(text(t));
    }
    assert!(!grid.is_finished());
    assert_eq!(grid.elements_count(), 4);
    assert_eq!(grid.as_text(&engine), "ABC\nD\n");
    assert!(matches!(grid.child_at(3), Some(Glyph::Text(s)) if s == "D"));
    assert!(grid.child_at(4).is_none());
    assert!(grid.get_child_mut(0).is_none());
}

#[test]
fn full_grid_has_height_lines_of_width() {
    let engine = GlyphEngineAsciiImpl::new();
    let mut grid = GlyphGrid::new(4, 3);
    for i in 0..12u32 {
        grid.add_child(Glyph::Pixel(LumaPixel::new((i * 20) as u8)));
    }
    let out = grid.as_text(&engine);
    let lines: Vec<&str> = out.split('\n').collect();
    assert_eq!(lines.len(), 3);
    for line in &lines {
        assert_eq!(line.chars().count(), 4);
    }
    assert_eq!(out, "  .:\n--=+\n*##%");
}

#[test]
fn empty_grid_dimensions() {
    let engine = GlyphEngineAsciiImpl::new();
    let mut grid = GlyphGrid::new(0, 2);
    assert!(grid.is_finished());
    grid.add_child(text("X"));
    assert_eq!(grid.elements_count(), 0);
    assert_eq!(grid.as_text(&engine), "\n");

    let mut flat = GlyphGrid::new(3, 0);
    assert!(flat.is_finished());
    flat.add_child(text("X"));
    assert_eq!(flat.as_text(&engine), "");
}

#[test]
fn grid_as_glyph() {
    let engine = GlyphEngineAsciiImpl::new();
    let mut g = Glyph::Grid(GlyphGrid::new(1, 2));
    g.add_child(text("a"));
    g.add_child(text("b"));
    g.add_child(text("c"));
    assert_eq!(g.as_text(&engine), "a\nb");
}
