//! Engines that map an 8-bit luminance to a character.

use vstd::prelude::*;

verus! {

/// Maps an 8-bit luminance to the character that stands for it.
pub trait GlyphRenderingEngine {
    /// The character that stands for luminance `y`.
    spec fn spec_char_for(&self, y: u8) -> char;

    fn get_char_based_on_luma_value(&self, y: u8) -> (c: char)
        ensures
            c == self.spec_char_for(y),
    ;
}

/// The bucket of luminance `y` on a ramp of `n` characters: `[0, 256)` is cut
/// into `n` buckets by dividing by 256.
pub open spec fn ramp_index(y: u8, n: nat) -> int {
    (y as int * n as int) / 256
}

/// The ramp from dark to light that the engine uses unless told otherwise.
pub open spec fn canonical_ramp() -> Seq<char> {
    seq![' ', '.', ':', '-', '=', '+', '*', '#', '%', '@']
}

/// Draws each character from an ordered ramp, darkest first.
#[derive(Debug)]
pub struct GlyphEngineAsciiImpl {
    charset: Vec<char>,
}

impl GlyphEngineAsciiImpl {
    #[verifier::type_invariant]
    spec fn well_formed(self) -> bool {
        self.charset@.len() >= 1
    }

    /// The ramp, darkest character first.
    pub closed spec fn ramp(&self) -> Seq<char> {
        self.charset@
    }

    /// An engine on the canonical ten-character ramp.
    pub fn new() -> (r: Self)
        ensures
            r.ramp() == canonical_ramp(),
    {
        let charset: Vec<char> = vec![' ', '.', ':', '-', '=', '+', '*', '#', '%', '@'];
        assert(charset@ =~= canonical_ramp());
        GlyphEngineAsciiImpl { charset }
    }

    /// An engine on the given ramp, darkest character first; none for an empty
    /// ramp.
    pub fn from_ramp(ramp: Vec<char>) -> (r: Option<Self>)
        ensures
            r is Some <==> ramp@.len() >= 1,
            r matches Some(e) ==> e.ramp() == ramp@,
    {
        if ramp.len() == 0 {
            None
        } else {
            Some(GlyphEngineAsciiImpl { charset: ramp })
        }
    }

    /// The number of characters on the ramp.
    pub fn ramp_len(&self) -> (n: usize)
        ensures
            n == self.ramp().len(),
            n >= 1,
    {
        proof {
            use_type_invariant(self);
        }
        self.charset.len()
    }
}

impl GlyphRenderingEngine for GlyphEngineAsciiImpl {
    closed spec fn spec_char_for(&self, y: u8) -> char {
        self.charset@[ramp_index(y, self.charset@.len())]
    }

    fn get_char_based_on_luma_value(&self, y: u8) -> (c: char) {
        proof {
            use_type_invariant(self);
            lemma_ramp_index_bounds(y, self.charset@.len());
        }
        let n: usize = self.charset.len();
        let index: usize = ((y as u128 * n as u128) / 256) as usize;
        self.charset[index]
    }
}

/// The character for luminance `y` is the one at index `⌊y·N/256⌋` of the
/// ramp of length `N`.
pub proof fn lemma_char_for(e: &GlyphEngineAsciiImpl, y: u8)
    ensures
        e.spec_char_for(y) == e.ramp()[ramp_index(y, e.ramp().len())],
{
}

/// On a ramp of at least one character, every luminance falls in a bucket
/// of the ramp, and the darkest in the first.
pub proof fn lemma_ramp_index_bounds(y: u8, n: nat)
    requires
        n >= 1,
    ensures
        0 <= ramp_index(y, n) < n,
        y == 0 ==> ramp_index(y, n) == 0,
{
    assert(0 <= y as int * n as int <= 255 * n) by (nonlinear_arith)
        requires
            0 <= y <= 255,
    ;
    assert((y as int * n as int) / 256 < n as int) by (nonlinear_arith)
        requires
            y as int * n as int <= 255 * n,
            n >= 1,
    ;
}

/// A lighter luminance never falls in a darker bucket.
pub proof fn lemma_ramp_index_monotone(y1: u8, y2: u8, n: nat)
    requires
        y1 <= y2,
    ensures
        ramp_index(y1, n) <= ramp_index(y2, n),
{
    assert(y1 as int * n as int <= y2 as int * n as int) by (nonlinear_arith)
        requires
            y1 <= y2,
    ;
    assert((y1 as int * n as int) / 256 <= (y2 as int * n as int) / 256) by (nonlinear_arith)
        requires
            y1 as int * n as int <= y2 as int * n as int,
    ;
}

} // verus!
