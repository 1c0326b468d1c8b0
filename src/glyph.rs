//! The glyph tree: leaves that render to short texts and containers that
//! assemble their children's texts into rows and columns.

use vstd::prelude::*;

use crate::engine::GlyphRenderingEngine;
use crate::grid::{grid_text, grid_took, lemma_grid_text, GlyphGrid};
use crate::image::{image_took, lemma_image_text, LumaImage};
use crate::pixel::LumaPixel;
use crate::text::{concat_all, join_lines, push_char};

verus! {

/// A node of the tree.
#[derive(Debug)]
pub enum Glyph {
    /// A luminance, rendered as the engine's character for it.
    Pixel(LumaPixel),
    /// A fixed text, whatever the engine.
    Text(String),
    /// Renders nothing.
    Empty(GlyphNone),
    /// Children side by side.
    Row(GlyphRow),
    /// Children one below the other.
    Col(GlyphCol),
    /// A fixed number of rows, filled row by row.
    Grid(GlyphGrid),
    /// A grid of luminance pixels.
    Image(LumaImage),
}

/// A leaf that renders to the empty text.
#[derive(Debug)]
pub struct GlyphNone;

/// Children rendered one after another, with no separator.
#[derive(Debug)]
pub struct GlyphRow {
    pub(crate) children: Vec<Glyph>,
}

/// Children rendered one per line: a line feed between each two of them.
#[derive(Debug)]
pub struct GlyphCol {
    pub(crate) children: Vec<Glyph>,
}

impl View for GlyphRow {
    type V = Seq<Glyph>;

    closed spec fn view(&self) -> Seq<Glyph> {
        self.children@
    }
}

impl View for GlyphCol {
    type V = Seq<Glyph>;

    closed spec fn view(&self) -> Seq<Glyph> {
        self.children@
    }
}

/// The text that a glyph renders to with engine `e`.
pub closed spec fn glyph_text<E: GlyphRenderingEngine>(g: Glyph, e: E) -> Seq<char>
    decreases g,
{
    match g {
        Glyph::Pixel(p) => seq![e.spec_char_for(p.y)],
        Glyph::Text(s) => s@,
        Glyph::Empty(_) => Seq::empty(),
        Glyph::Row(r) => concat_texts(r.children@, e),
        Glyph::Col(c) => join_texts(c.children@, e),
        Glyph::Grid(gr) => join_texts(gr.main_col.children@, e),
        Glyph::Image(im) => join_texts(im.pixels.main_col.children@, e),
    }
}

closed spec fn concat_texts<E: GlyphRenderingEngine>(cs: Seq<Glyph>, e: E) -> Seq<char>
    decreases cs,
{
    if cs.len() == 0 {
        Seq::empty()
    } else {
        concat_texts(cs.drop_last(), e) + glyph_text(cs.last(), e)
    }
}

closed spec fn join_texts<E: GlyphRenderingEngine>(cs: Seq<Glyph>, e: E) -> Seq<char>
    decreases cs,
{
    if cs.len() == 0 {
        Seq::empty()
    } else if cs.len() == 1 {
        glyph_text(cs[0], e)
    } else {
        join_texts(cs.drop_last(), e) + seq!['\n'] + glyph_text(cs.last(), e)
    }
}

/// The texts of the glyphs, in order.
pub open spec fn texts<E: GlyphRenderingEngine>(cs: Seq<Glyph>, e: E) -> Seq<Seq<char>> {
    cs.map_values(|c: Glyph| glyph_text(c, e))
}

/// The children of a row; none for any other glyph.
pub open spec fn row_children(g: Glyph) -> Seq<Glyph> {
    match g {
        Glyph::Row(r) => r@,
        _ => Seq::empty(),
    }
}

/// The children of a row or a column; none for any other glyph, which hands
/// out no child to change in place.
pub open spec fn child_list(g: Glyph) -> Seq<Glyph> {
    match g {
        Glyph::Row(r) => r@,
        Glyph::Col(c) => c@,
        _ => Seq::empty(),
    }
}

/// `after` is `before` having taken `child`: a row or a column appends it, a
/// grid or an image takes it into its next free cell unless full, and a leaf
/// ignores it.
pub open spec fn child_added(before: Glyph, after: Glyph, child: Glyph) -> bool {
    match before {
        Glyph::Row(a) => match after {
            Glyph::Row(b) => b@ == a@.push(child),
            _ => false,
        },
        Glyph::Col(a) => match after {
            Glyph::Col(b) => b@ == a@.push(child),
            _ => false,
        },
        Glyph::Grid(a) => match after {
            Glyph::Grid(b) => grid_took(a, b, child),
            _ => false,
        },
        Glyph::Image(a) => match after {
            Glyph::Image(b) => image_took(a, b, child),
            _ => false,
        },
        _ => after == before,
    }
}

proof fn lemma_texts_drop_last<E: GlyphRenderingEngine>(cs: Seq<Glyph>, e: E)
    requires
        cs.len() > 0,
    ensures
        texts(cs, e).drop_last() == texts(cs.drop_last(), e),
        texts(cs, e).last() == glyph_text(cs.last(), e),
        texts(cs, e).len() == cs.len(),
{
    assert(texts(cs, e).drop_last() =~= texts(cs.drop_last(), e));
}

proof fn lemma_concat_texts<E: GlyphRenderingEngine>(cs: Seq<Glyph>, e: E)
    ensures
        concat_texts(cs, e) == concat_all(texts(cs, e)),
    decreases cs.len(),
{
    if cs.len() > 0 {
        lemma_texts_drop_last(cs, e);
        lemma_concat_texts(cs.drop_last(), e);
    }
}

proof fn lemma_join_texts<E: GlyphRenderingEngine>(cs: Seq<Glyph>, e: E)
    ensures
        join_texts(cs, e) == join_lines(texts(cs, e)),
    decreases cs.len(),
{
    if cs.len() > 0 {
        lemma_texts_drop_last(cs, e);
        lemma_join_texts(cs.drop_last(), e);
    }
}

/// What each kind of glyph renders to, in terms of its parts.
pub(crate) proof fn lemma_glyph_text<E: GlyphRenderingEngine>(g: Glyph, e: E)
    ensures
        match g {
            Glyph::Pixel(p) => glyph_text(g, e) == seq![e.spec_char_for(p.y)],
            Glyph::Text(s) => glyph_text(g, e) == s@,
            Glyph::Empty(_) => glyph_text(g, e) == Seq::<char>::empty(),
            Glyph::Row(r) => glyph_text(g, e) == concat_all(texts(r@, e)),
            Glyph::Col(c) => glyph_text(g, e) == join_lines(texts(c@, e)),
            Glyph::Grid(gr) => glyph_text(g, e) == join_lines(texts(gr.main_col@, e)),
            Glyph::Image(im) => glyph_text(g, e) == glyph_text(Glyph::Grid(im.pixels), e),
        },
{
    match g {
        Glyph::Row(r) => lemma_concat_texts(r.children@, e),
        Glyph::Col(c) => lemma_join_texts(c.children@, e),
        Glyph::Grid(gr) => lemma_join_texts(gr.main_col.children@, e),
        _ => {},
    }
}

/// What each kind of glyph renders to: a pixel the engine's character for
/// its luminance, a fixed text itself, an empty glyph nothing, a row its
/// children's texts one after another, a column its children's texts with a
/// line feed between each two of them, and a well-formed grid, or an image
/// over one, its cells laid out row by row.
pub proof fn lemma_text_of_parts<E: GlyphRenderingEngine>(g: Glyph, e: E)
    ensures
        match g {
            Glyph::Pixel(p) => glyph_text(g, e) == seq![e.spec_char_for(p.y)],
            Glyph::Text(s) => glyph_text(g, e) == s@,
            Glyph::Empty(_) => glyph_text(g, e) == Seq::<char>::empty(),
            Glyph::Row(r) => glyph_text(g, e) == concat_all(texts(r@, e)),
            Glyph::Col(c) => glyph_text(g, e) == join_lines(texts(c@, e)),
            Glyph::Grid(gr) => gr.well_formed() ==> glyph_text(g, e) == grid_text(
                gr.cells(),
                gr.width(),
                gr.height(),
                e,
            ),
            Glyph::Image(im) => im.grid().well_formed() ==> glyph_text(g, e) == grid_text(
                im.grid().cells(),
                im.grid().width(),
                im.grid().height(),
                e,
            ),
        },
{
    lemma_glyph_text(g, e);
    match g {
        Glyph::Grid(gr) => {
            if gr.well_formed() {
                lemma_grid_text(gr, e);
            }
        },
        Glyph::Image(im) => lemma_image_text(im, e),
        _ => {},
    }
}

/// Appending the text of one more glyph to the concatenated texts of the
/// glyphs before it.
proof fn lemma_concat_step<E: GlyphRenderingEngine>(cs: Seq<Glyph>, i: int, e: E)
    requires
        0 <= i < cs.len(),
    ensures
        concat_all(texts(cs.subrange(0, i + 1), e)) == concat_all(texts(cs.subrange(0, i), e))
            + glyph_text(cs[i], e),
{
    let s = cs.subrange(0, i + 1);
    lemma_texts_drop_last(s, e);
    assert(s.drop_last() =~= cs.subrange(0, i));
}

/// Joining the text of one more glyph to the joined texts of the glyphs
/// before it.
proof fn lemma_join_step<E: GlyphRenderingEngine>(cs: Seq<Glyph>, i: int, e: E)
    requires
        0 <= i < cs.len(),
    ensures
        i == 0 ==> join_lines(texts(cs.subrange(0, i + 1), e)) == glyph_text(cs[i], e),
        i > 0 ==> join_lines(texts(cs.subrange(0, i + 1), e)) == join_lines(
            texts(cs.subrange(0, i), e),
        ) + seq!['\n'] + glyph_text(cs[i], e),
{
    let s = cs.subrange(0, i + 1);
    lemma_texts_drop_last(s, e);
    assert(s.drop_last() =~= cs.subrange(0, i));
}

impl Glyph {
    /// The text of this glyph and everything below it.
    pub fn as_text<E: GlyphRenderingEngine>(&self, engine: &E) -> (r: String)
        ensures
            r@ == glyph_text(*self, *engine),
        decreases self,
    {
        proof {
            lemma_glyph_text(*self, *engine);
        }
        match self {
            Glyph::Pixel(p) => p.as_text(engine),
            Glyph::Text(s) => s.clone(),
            Glyph::Empty(n) => n.as_text(engine),
            Glyph::Row(r) => r.as_text(engine),
            Glyph::Col(c) => c.as_text(engine),
            Glyph::Grid(g) => g.as_text(engine),
            Glyph::Image(i) => i.as_text(engine),
        }
    }
}

impl Glyph {
    /// Gives `child` to this glyph, as its kind takes children.
    pub fn add_child(&mut self, child: Glyph)
        ensures
            child_added(*old(self), *final(self), child),
    {
        match self {
            Glyph::Row(r) => r.add_child(child),
            Glyph::Col(c) => c.add_child(child),
            Glyph::Grid(g) => g.add_child(child),
            Glyph::Image(i) => i.add_child(child),
            _ => {},
        }
    }

    /// The child at `index` of a row or a column, to change in place; none
    /// for any other glyph and past the last child.
    pub fn get_child_mut(&mut self, index: usize) -> (r: Option<&mut Glyph>)
        ensures
            index < child_list(*old(self)).len() ==> (r matches Some(c) && *c == child_list(
                *old(self),
            )[index as int] && child_list(*final(self)) == child_list(*old(self)).update(
                index as int,
                *final(c),
            ) && (*old(self) is Row <==> *final(self) is Row) && (*old(self) is Col
                <==> *final(self) is Col)),
            index >= child_list(*old(self)).len() ==> (r is None && *final(self) == *old(self)),
    {
        match self {
            Glyph::Row(r) => r.get_child_mut(index),
            Glyph::Col(c) => c.get_child_mut(index),
            _ => None,
        }
    }
}

impl GlyphNone {
    pub fn new() -> Self {
        GlyphNone
    }

    pub fn as_text<E: GlyphRenderingEngine>(&self, engine: &E) -> (r: String)
        ensures
            r@ == Seq::<char>::empty(),
    {
        String::new()
    }

    /// A leaf ignores children.
    pub fn add_child(&mut self, child: Glyph)
        ensures
            *final(self) == *old(self),
    {
    }

    /// A leaf has no children.
    pub fn get_child_mut(&mut self, index: usize) -> (r: Option<&mut Glyph>)
        ensures
            r is None,
            *final(self) == *old(self),
    {
        None
    }
}

impl GlyphRow {
    /// A row with no children.
    pub fn empty() -> (r: Self)
        ensures
            r@ == Seq::<Glyph>::empty(),
    {
        GlyphRow { children: Vec::new() }
    }

    pub fn new(children: Vec<Glyph>) -> (r: Self)
        ensures
            r@ == children@,
    {
        GlyphRow { children }
    }

    /// The children's texts one after another, with no separator.
    pub fn as_text<E: GlyphRenderingEngine>(&self, engine: &E) -> (r: String)
        ensures
            r@ == concat_all(texts(self@, *engine)),
        decreases self,
    {
        let mut out = String::new();
        let mut i: usize = 0;
        while i < self.children.len()
            invariant
                i <= self.children@.len(),
                out@ == concat_all(texts(self.children@.subrange(0, i as int), *engine)),
            decreases self.children@.len() - i,
        {
            let part = self.children[i].as_text(engine);
            proof {
                lemma_concat_step(self.children@, i as int, *engine);
            }
            out.append(part.as_str());
            i += 1;
        }
        assert(self.children@.subrange(0, i as int) =~= self.children@);
        out
    }

    pub fn add_child(&mut self, child: Glyph)
        ensures
            final(self)@ == old(self)@.push(child),
    {
        self.children.push(child);
    }

    /// The child at `index`; none past the last child.
    pub fn child_at(&self, index: usize) -> (r: Option<&Glyph>)
        ensures
            index < self@.len() ==> (r matches Some(c) && *c == self@[index as int]),
            index >= self@.len() ==> r is None,
    {
        if index < self.children.len() {
            Some(&self.children[index])
        } else {
            None
        }
    }

    /// The child at `index`, to change in place; none past the last child.
    pub fn get_child_mut(&mut self, index: usize) -> (r: Option<&mut Glyph>)
        ensures
            index < old(self)@.len() ==> (r matches Some(c) && *c == old(self)@[index as int]
                && final(self)@ == old(self)@.update(index as int, *final(c))),
            index >= old(self)@.len() ==> (r is None && *final(self) == *old(self)),
    {
        if index < self.children.len() {
            Some(&mut self.children[index])
        } else {
            None
        }
    }
}

impl GlyphCol {
    /// A column with no children.
    pub fn empty() -> (r: Self)
        ensures
            r@ == Seq::<Glyph>::empty(),
    {
        GlyphCol { children: Vec::new() }
    }

    pub fn new(children: Vec<Glyph>) -> (r: Self)
        ensures
            r@ == children@,
    {
        GlyphCol { children }
    }

    /// The children's texts with a line feed between each two of them, and
    /// none after the last.
    pub fn as_text<E: GlyphRenderingEngine>(&self, engine: &E) -> (r: String)
        ensures
            r@ == join_lines(texts(self@, *engine)),
        decreases self,
    {
        let mut out = String::new();
        let mut i: usize = 0;
        while i < self.children.len()
            invariant
                i <= self.children@.len(),
                out@ == join_lines(texts(self.children@.subrange(0, i as int), *engine)),
            decreases self.children@.len() - i,
        {
            let part = self.children[i].as_text(engine);
            proof {
                lemma_join_step(self.children@, i as int, *engine);
            }
            if i > 0 {
                push_char(&mut out, '\n');
            } else {
                assert(out@ + part@ =~= part@);
            }
            out.append(part.as_str());
            i += 1;
        }
        assert(self.children@.subrange(0, i as int) =~= self.children@);
        out
    }

    pub fn add_child(&mut self, child: Glyph)
        ensures
            final(self)@ == old(self)@.push(child),
    {
        self.children.push(child);
    }

    /// The child at `index`; none past the last child.
    pub fn child_at(&self, index: usize) -> (r: Option<&Glyph>)
        ensures
            index < self@.len() ==> (r matches Some(c) && *c == self@[index as int]),
            index >= self@.len() ==> r is None,
    {
        if index < self.children.len() {
            Some(&self.children[index])
        } else {
            None
        }
    }

    /// The child at `index`, to change in place; none past the last child.
    pub fn get_child_mut(&mut self, index: usize) -> (r: Option<&mut Glyph>)
        ensures
            index < old(self)@.len() ==> (r matches Some(c) && *c == old(self)@[index as int]
                && final(self)@ == old(self)@.update(index as int, *final(c))),
            index >= old(self)@.len() ==> (r is None && *final(self) == *old(self)),
    {
        if index < self.children.len() {
            Some(&mut self.children[index])
        } else {
            None
        }
    }
}

} // verus!
