//! A grid of a fixed number of rows, filled row by row.

use vstd::prelude::*;

use vstd::arithmetic::div_mod::{
    lemma_fundamental_div_mod_converse_div, lemma_fundamental_div_mod_converse_mod,
};

use crate::engine::GlyphRenderingEngine;
use crate::glyph::{glyph_text, lemma_glyph_text, row_children, texts, Glyph, GlyphCol, GlyphRow};
use crate::text::{
    concat_all, join_lines, lemma_concat_all_len, lemma_concat_single_line, lemma_lines_of_join,
    lines, single_line,
};

verus! {

/// How many cells row `r` holds, in a grid `width` wide that holds `count`
/// cells row by row.
pub open spec fn row_fill(count: int, width: int, r: int) -> int {
    let rest = count - r * width;
    if rest <= 0 {
        0
    } else if rest >= width {
        width
    } else {
        rest
    }
}

/// The cells of row `r`, in a grid `width` wide that holds `cells` row by row.
pub open spec fn row_cells(cells: Seq<Glyph>, width: nat, r: int) -> Seq<Glyph> {
    let n = cells.len() as int;
    let lo = r * width;
    let hi = lo + width;
    cells.subrange(if lo < n { lo } else { n }, if hi < n { hi } else { n })
}

/// The text of a grid of `height` rows, `width` wide, that holds `cells` row
/// by row: the texts of each row's cells one after another, and the rows
/// joined by line feeds.
pub open spec fn grid_text<E: GlyphRenderingEngine>(
    cells: Seq<Glyph>,
    width: nat,
    height: nat,
    e: E,
) -> Seq<char> {
    join_lines(Seq::new(height, |r: int| concat_all(texts(row_cells(cells, width, r), e))))
}

/// The cells of a column of rows `width` wide, read row by row.
spec fn cells_of(rows: Seq<Glyph>, width: nat, count: nat) -> Seq<Glyph> {
    Seq::new(count, |i: int| row_children(rows[i / width as int])[i % width as int])
}

/// `rows` are `height` rows that hold `count` cells, row by row.
spec fn rows_fit(rows: Seq<Glyph>, width: nat, height: nat, count: nat) -> bool {
    &&& rows.len() == height
    &&& forall|r: int| 0 <= r < height ==> (#[trigger] rows[r]) is Row
    &&& forall|r: int|
        0 <= r < height ==> (#[trigger] row_children(rows[r])).len() == row_fill(
            count as int,
            width as int,
            r,
        )
}

/// Cell `r·width + j` of a grid lies in row `r`, at `j`.
pub(crate) proof fn lemma_cell_position(r: int, j: int, width: int)
    requires
        width > 0,
        0 <= j < width,
    ensures
        (r * width + j) / width == r,
        (r * width + j) % width == j,
{
    lemma_fundamental_div_mod_converse_div(r * width + j, width, r, j);
    lemma_fundamental_div_mod_converse_mod(r * width + j, width, r, j);
}

/// A grid with room for a cell has rows, and room in each.
pub(crate) proof fn lemma_room_means_positive(count: int, width: int, height: int)
    requires
        0 <= count < width * height,
        0 <= width,
        0 <= height,
    ensures
        width > 0,
        height > 0,
{
    if width == 0 || height == 0 {
        assert(width * height == 0) by (nonlinear_arith)
            requires
                width == 0 || height == 0,
        ;
    }
}

/// Cell `i` lies in row `i / width`, at `i % width`.
proof fn lemma_cell_row(i: int, width: int)
    requires
        width > 0,
        0 <= i,
    ensures
        i == (i / width) * width + i % width,
        0 <= i % width < width,
        0 <= i / width,
{
    vstd::arithmetic::div_mod::lemma_fundamental_div_mod(i, width);
    vstd::arithmetic::div_mod::lemma_mod_bound(i, width);
    vstd::arithmetic::div_mod::lemma_div_pos_is_pos(i, width);
    assert(width * (i / width) == (i / width) * width) by (nonlinear_arith);
}

/// In rows that fit, each row holds the cells of its part of the grid.
proof fn lemma_rows_are_chunks(rows: Seq<Glyph>, width: nat, height: nat, count: nat, r: int)
    requires
        rows_fit(rows, width, height, count),
        0 <= r < height,
    ensures
        row_children(rows[r]) == row_cells(cells_of(rows, width, count), width, r),
{
    let cells = cells_of(rows, width, count);
    let w = width as int;
    let row = row_children(rows[r]);
    let chunk = row_cells(cells, width, r);
    assert(0 <= r * w) by (nonlinear_arith)
        requires
            0 <= r,
            0 <= w,
    ;
    if row.len() > 0 {
        assert(w > 0);
        assert forall|j: int| 0 <= j < row.len() implies chunk[j] == row[j] by {
            lemma_cell_position(r, j, w);
        }
    }
    assert(chunk =~= row);
}

/// Adding a glyph at the end of the row that holds the next free cell keeps
/// the rows fitting, with the glyph as the last cell.
proof fn lemma_push_cell(
    rows: Seq<Glyph>,
    rows2: Seq<Glyph>,
    width: nat,
    height: nat,
    count: nat,
    child: Glyph,
)
    requires
        rows_fit(rows, width, height, count),
        count < width * height,
        rows2.len() == height,
        (count as int / width as int) < height,
        rows2[count as int / width as int] is Row,
        row_children(rows2[count as int / width as int]) == row_children(
            rows[count as int / width as int],
        ).push(child),
        forall|r: int|
            0 <= r < height && r != count as int / width as int ==> rows2[r] == rows[r],
    ensures
        rows_fit(rows2, width, height, count + 1),
        cells_of(rows2, width, count + 1) == cells_of(rows, width, count).push(child),
{
    let w = width as int;
    let c = count as int;
    lemma_room_means_positive(c, w, height as int);
    let k = c / w;
    lemma_cell_row(c, w);
    assert(k < height) by (nonlinear_arith)
        requires
            c == k * w + c % w,
            0 <= c % w,
            c < w * height,
            w > 0,
    ;
    assert forall|r: int| 0 <= r < height implies (#[trigger] row_children(rows2[r])).len()
        == row_fill(c + 1, w, r) by {
        if r < k {
            assert((r + 1) * w <= k * w) by (nonlinear_arith)
                requires
                    r < k,
                    w > 0,
            ;
            assert(r * w + w == (r + 1) * w) by (nonlinear_arith);
        } else if r > k {
            assert((k + 1) * w <= r * w) by (nonlinear_arith)
                requires
                    k < r,
                    w > 0,
            ;
            assert(k * w + w == (k + 1) * w) by (nonlinear_arith);
        }
    }
    let cells = cells_of(rows, width, count);
    let cells2 = cells_of(rows2, width, count + 1);
    assert forall|i: int| 0 <= i < c implies cells2[i] == cells[i] by {
        lemma_cell_row(i, w);
        let q = i / w;
        if q == k {
            assert(i % w < row_children(rows[k]).len());
        } else {
            vstd::arithmetic::div_mod::lemma_div_is_ordered(i, c, w);
        }
    }
    assert(cells2[c] == child);
    assert(cells2 =~= cells.push(child));
}

/// `after` is `before` having taken `child` into its next free cell, or
/// `before` unchanged in what it holds when it was full.
pub open spec fn grid_took(before: GlyphGrid, after: GlyphGrid, child: Glyph) -> bool {
    &&& after.width() == before.width()
    &&& after.height() == before.height()
    &&& after.cells() == if before.cells().len() < before.capacity() {
        before.cells().push(child)
    } else {
        before.cells()
    }
}

/// Row-major order: when no cell's text holds a line feed, the text of a grid
/// of at least one row has one line per row, and line `r` is the texts of
/// cells `r·width` up to `r·width + width − 1`, those of them that the grid
/// holds, one after another.
pub proof fn lemma_grid_lines<E: GlyphRenderingEngine>(
    cells: Seq<Glyph>,
    width: nat,
    height: nat,
    e: E,
)
    requires
        height >= 1,
        forall|i: int| 0 <= i < cells.len() ==> single_line(glyph_text(#[trigger] cells[i], e)),
    ensures
        lines(grid_text(cells, width, height, e)).len() == height,
        forall|r: int|
            0 <= r < height ==> #[trigger] lines(grid_text(cells, width, height, e))[r]
                == concat_all(texts(row_cells(cells, width, r), e)),
{
    let parts = Seq::new(height, |r: int| concat_all(texts(row_cells(cells, width, r), e)));
    assert forall|r: int| 0 <= r < parts.len() implies single_line(#[trigger] parts[r]) by {
        let row = texts(row_cells(cells, width, r), e);
        let n = cells.len() as int;
        let lo = r * width;
        let lo = if lo < n { lo } else { n };
        assert(0 <= r * width) by (nonlinear_arith)
            requires
                0 <= r,
        ;
        assert forall|j: int| 0 <= j < row.len() implies single_line(#[trigger] row[j]) by {
            assert(row[j] == glyph_text(cells[lo + j], e));
        }
        lemma_concat_single_line(row);
    }
    lemma_lines_of_join(parts);
}

/// A full grid of at least one row, whose cells each render to one character
/// other than a line feed, renders to exactly `height` lines of `width`
/// characters each.
pub proof fn lemma_full_grid_shape<E: GlyphRenderingEngine>(
    cells: Seq<Glyph>,
    width: nat,
    height: nat,
    e: E,
)
    requires
        height >= 1,
        cells.len() == width * height,
        forall|i: int|
            0 <= i < cells.len() ==> (#[trigger] glyph_text(cells[i], e)).len() == 1
                && glyph_text(cells[i], e)[0] != '\n',
    ensures
        lines(grid_text(cells, width, height, e)).len() == height,
        forall|r: int|
            0 <= r < height ==> (#[trigger] lines(grid_text(cells, width, height, e))[r]).len()
                == width,
{
    assert forall|i: int| 0 <= i < cells.len() implies single_line(
        glyph_text(#[trigger] cells[i], e),
    ) by {
        let t = glyph_text(cells[i], e);
        assert forall|k: int| 0 <= k < t.len() implies t[k] != '\n' by {
            assert(k == 0);
        }
    }
    lemma_grid_lines(cells, width, height, e);
    assert forall|r: int| 0 <= r < height implies (#[trigger] lines(
        grid_text(cells, width, height, e),
    )[r]).len() == width by {
        let w = width as int;
        assert(r * w + w <= w * height) by (nonlinear_arith)
            requires
                0 <= r < height,
                0 <= w,
        ;
        assert(0 <= r * w) by (nonlinear_arith)
            requires
                0 <= r,
                0 <= w,
        ;
        let lo = r * w;
        let row = texts(row_cells(cells, width, r), e);
        assert(row.len() == width);
        assert forall|j: int| 0 <= j < row.len() implies (#[trigger] row[j]).len() == 1 by {
            assert(row[j] == glyph_text(cells[lo + j], e));
        }
        lemma_concat_all_len(row, 1);
        assert(row.len() * 1 == width);
    }
}

/// A well-formed grid renders to its cells laid out row by row: the texts of
/// each row's cells one after another, and the rows joined by line feeds.
pub proof fn lemma_grid_text<E: GlyphRenderingEngine>(g: GlyphGrid, e: E)
    requires
        g.well_formed(),
    ensures
        glyph_text(Glyph::Grid(g), e) == grid_text(g.cells(), g.width(), g.height(), e),
{
    lemma_glyph_text(Glyph::Grid(g), e);
    let rows = g.main_col@;
    let by_rows = Seq::new(
        g.height as nat,
        |r: int| concat_all(texts(row_cells(g.cells(), g.width as nat, r), e)),
    );
    assert forall|r: int| 0 <= r < g.height implies texts(rows, e)[r] == by_rows[r] by {
        lemma_rows_are_chunks(rows, g.width as nat, g.height as nat, g.elements_count as nat, r);
        lemma_glyph_text(rows[r], e);
    }
    assert(texts(rows, e) =~= by_rows);
}

/// A column of `height` rows that takes up to `width` glyphs in each row.
#[derive(Debug)]
pub struct GlyphGrid {
    pub(crate) main_col: GlyphCol,
    pub(crate) elements_count: usize,
    pub(crate) width: usize,
    pub(crate) height: usize,
}

impl GlyphGrid {
    /// Every grid made by this library: its size fits a `usize`, it holds no
    /// more cells than it takes, and its rows hold the cells row by row.
    #[verifier::type_invariant]
    pub closed spec fn well_formed(self) -> bool {
        &&& self.width * self.height <= usize::MAX
        &&& self.elements_count <= self.width * self.height
        &&& rows_fit(
            self.main_col@,
            self.width as nat,
            self.height as nat,
            self.elements_count as nat,
        )
    }

    /// How many glyphs a row takes.
    pub closed spec fn width(&self) -> nat {
        self.width as nat
    }

    /// How many rows the grid has.
    pub closed spec fn height(&self) -> nat {
        self.height as nat
    }

    /// The glyphs taken so far, in the order in which they came.
    pub closed spec fn cells(&self) -> Seq<Glyph> {
        cells_of(self.main_col@, self.width as nat, self.elements_count as nat)
    }

    /// How many glyphs the grid takes in all.
    pub open spec fn capacity(&self) -> nat {
        self.width() * self.height()
    }

    /// An empty grid of `height` rows, each to take `width` glyphs.
    pub fn new(width: usize, height: usize) -> (g: Self)
        requires
            width * height <= usize::MAX,
        ensures
            g.width() == width,
            g.height() == height,
            g.cells() == Seq::<Glyph>::empty(),
    {
        let mut rows: Vec<Glyph> = Vec::with_capacity(height);
        let mut i: usize = 0;
        while i < height
            invariant
                i <= height,
                rows@.len() == i,
                forall|r: int| 0 <= r < i ==> (#[trigger] rows@[r]) is Row,
                forall|r: int| 0 <= r < i ==> (#[trigger] row_children(rows@[r])).len() == 0,
            decreases height - i,
        {
            rows.push(Glyph::Row(GlyphRow::new(Vec::with_capacity(width))));
            i += 1;
        }
        let main_col = GlyphCol::new(rows);
        assert forall|r: int| 0 <= r < height implies (#[trigger] row_children(main_col@[r])).len()
            == row_fill(0, width as int, r) by {
            assert(0 - r * width <= 0) by (nonlinear_arith)
                requires
                    0 <= r,
            ;
        }
        let g = GlyphGrid { main_col, elements_count: 0, width, height };
        assert(g.cells() =~= Seq::<Glyph>::empty());
        g
    }

    /// Whether the grid has taken as many glyphs as it can.
    pub fn is_finished(&self) -> (r: bool)
        ensures
            r == (self.cells().len() >= self.capacity()),
    {
        proof {
            use_type_invariant(self);
        }
        self.elements_count >= self.width * self.height
    }

    /// How many glyphs the grid has taken.
    pub fn elements_count(&self) -> (n: usize)
        ensures
            n == self.cells().len(),
            n <= self.capacity(),
    {
        proof {
            use_type_invariant(self);
        }
        self.elements_count
    }

    fn add_glyph(&mut self, new_glyph: Glyph)
        requires
            old(self).cells().len() < old(self).capacity(),
        ensures
            final(self).width() == old(self).width(),
            final(self).height() == old(self).height(),
            final(self).cells() == old(self).cells().push(new_glyph),
    {
        proof {
            use_type_invariant(&*self);
        }
        let mut taken = GlyphGrid { main_col: GlyphCol::empty(), elements_count: 0, width: 0, height: 0 };
        std::mem::swap(self, &mut taken);
        let GlyphGrid { mut main_col, elements_count, width, height } = taken;
        let ghost rows = main_col@;
        proof {
            lemma_room_means_positive(elements_count as int, width as int, height as int);
            lemma_cell_row(elements_count as int, width as int);
        }
        let row_index: usize = elements_count / width;
        proof {
            let k = row_index as int;
            let c = elements_count as int;
            let w = width as int;
            assert(k < height) by (nonlinear_arith)
                requires
                    c == k * w + c % w,
                    0 <= c % w,
                    c < w * height,
                    w > 0,
            ;
        }
        match main_col.get_child_mut(row_index) {
            Some(Glyph::Row(row)) => row.add_child(new_glyph),
            _ => {},
        }
        proof {
            assert(row_index < height);
            lemma_push_cell(
                rows,
                main_col@,
                width as nat,
                height as nat,
                elements_count as nat,
                new_glyph,
            );
        }
        *self = GlyphGrid { main_col, elements_count: elements_count + 1, width, height };
    }

    /// Takes `child` into the next free cell, row by row; ignored once the
    /// grid is full.
    pub fn add_child(&mut self, child: Glyph)
        ensures
            grid_took(*old(self), *final(self), child),
            old(self).cells().len() >= old(self).capacity() ==> *final(self) == *old(self),
    {
        if self.is_finished() {
            return ;
        }
        self.add_glyph(child);
    }

    /// The glyph in cell `index`, counting row by row; none past the last
    /// glyph taken.
    pub fn child_at(&self, index: usize) -> (r: Option<&Glyph>)
        ensures
            index < self.cells().len() ==> (r matches Some(c) && *c == self.cells()[index as int]),
            index >= self.cells().len() ==> r is None,
    {
        proof {
            use_type_invariant(self);
        }
        if index >= self.elements_count {
            return None;
        }
        proof {
            lemma_room_means_positive(index as int, self.width as int, self.height as int);
            lemma_cell_row(index as int, self.width as int);
            let i = index as int;
            let w = self.width as int;
            assert(i / w < self.height) by (nonlinear_arith)
                requires
                    i == (i / w) * w + i % w,
                    0 <= i % w,
                    i < w * self.height,
                    w > 0,
            ;
        }
        match self.main_col.child_at(index / self.width) {
            Some(Glyph::Row(row)) => row.child_at(index % self.width),
            _ => None,
        }
    }

    /// A grid hands out no child to change in place.
    pub fn get_child_mut(&mut self, index: usize) -> (r: Option<&mut Glyph>)
        ensures
            r is None,
            *final(self) == *old(self),
    {
        None
    }

    /// The rows' texts joined by line feeds, each row the texts of its cells
    /// one after another.
    pub fn as_text<E: GlyphRenderingEngine>(&self, engine: &E) -> (r: String)
        ensures
            r@ == glyph_text(Glyph::Grid(*self), *engine),
            r@ == grid_text(self.cells(), self.width(), self.height(), *engine),
        decreases self,
    {
        proof {
            use_type_invariant(self);
            lemma_glyph_text(Glyph::Grid(*self), *engine);
            lemma_grid_text(*self, *engine);
        }
        self.main_col.as_text(engine)
    }
}

} // verus!
