//! The glyph table: 8x8 bitmaps for the printable ASCII characters.
//!
//! The bitmap data itself is an external collaborator — the kernel ships
//! whatever face it likes — so the table is a value handed in at boot. Each
//! glyph packs its eight rows into one 64-bit word, row 0 in the lowest
//! byte; within a row, bit `col` is the pixel `col` columns from the left.

use vstd::prelude::*;

verus! {

/// First character the table covers (space).
pub const FONT_FIRST_CHAR: u8 = 32;

/// Last character the table covers (tilde).
pub const FONT_LAST_CHAR: u8 = 126;

/// The number of glyphs in a font table.
pub const FONT_GLYPH_COUNT: usize = 95;

/// An 8x8 bitmap font over the printable ASCII range.
#[derive(Debug, Clone, PartialEq, Eq)]
pub struct Font {
    /// One packed glyph per character from space to tilde.
    pub glyphs: Vec<u64>,
}

impl Font {
    /// A table is well formed when it covers the whole printable range.
    pub open spec fn wf(self) -> bool {
        self.glyphs@.len() == FONT_GLYPH_COUNT
    }

    /// A font from a complete glyph table.
    pub fn new(glyphs: Vec<u64>) -> (r: Result<Self, ()>)
        ensures
            glyphs@.len() == FONT_GLYPH_COUNT ==> (r matches Ok(f) && f.wf() && f.glyphs@
                == glyphs@),
            glyphs@.len() != FONT_GLYPH_COUNT ==> r is Err,
    {
        if glyphs.len() == FONT_GLYPH_COUNT {
            Ok(Self { glyphs })
        } else {
            Err(())
        }
    }

    /// Whether the glyph for `ch` has the pixel at (`col`, `row`) set.
    /// Characters outside the printable range have no pixels.
    pub open spec fn spec_pixel_on(self, ch: u8, col: int, row: int) -> bool {
        &&& FONT_FIRST_CHAR <= ch <= FONT_LAST_CHAR
        &&& 0 <= col < 8
        &&& 0 <= row < 8
        &&& (self.glyphs@[ch - FONT_FIRST_CHAR] >> ((8 * row + col) as u64)) & 1 == 1
    }

    /// Whether the glyph for `ch` has the pixel at (`col`, `row`) set.
    pub fn pixel_on(&self, ch: u8, col: u32, row: u32) -> (r: bool)
        requires
            self.wf(),
        ensures
            r == self.spec_pixel_on(ch, col as int, row as int),
    {
        if ch < FONT_FIRST_CHAR || ch > FONT_LAST_CHAR || col >= 8 || row >= 8 {
            return false;
        }
        let g = self.glyphs[(ch - FONT_FIRST_CHAR) as usize];
        (g >> ((8 * row + col) as u64)) & 1 == 1
    }
}

} // verus!
