//! Renders luminance images as text: an 8-bit luminance is mapped onto a ramp
//! of characters, and a small tree of glyphs (rows, columns, grids) assembles
//! those characters into multi-line text.

pub mod engine;
pub mod frame;
pub mod glyph;
pub mod grid;
pub mod image;
pub mod pixel;
pub mod text;
