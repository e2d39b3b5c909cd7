//! The frame buffer: one screen of glyphs, and the drawing capability.
use vstd::prelude::*;

use crate::{NUM_COLUMNS, NUM_ROWS};

verus! {

/// The glyph of a cell that shows nothing.
pub const EMPTY: char = ' ';

/// One rendered screen: a glyph for every cell of the grid.
///
/// Cells are addressed by column (`x`) and row (`y`); `frame@[x][y]` is the
/// glyph at column `x`, row `y`. The dimensions never change.
pub struct Frame {
    /// Column after column: the cell `(x, y)` is at index `x * NUM_ROWS + y`.
    cells: Vec<char>,
}

/// Whether `(x, y)` names a cell of the grid.
pub open spec fn in_grid(x: int, y: int) -> bool {
    0 <= x < NUM_COLUMNS && 0 <= y < NUM_ROWS
}

/// The glyph that `frame` holds at the cell `(x, y)`.
pub open spec fn glyph_of(frame: Seq<Seq<char>>, x: int, y: int) -> char {
    frame[x][y]
}

/// The frame in which every cell is empty.
pub open spec fn blank() -> Seq<Seq<char>> {
    Seq::new(NUM_COLUMNS as nat, |x: int| Seq::new(NUM_ROWS as nat, |y: int| EMPTY))
}

/// `frame` with the cell `(x, y)` replaced by `glyph`.
pub open spec fn with_cell(frame: Seq<Seq<char>>, x: int, y: int, glyph: char) -> Seq<Seq<char>> {
    frame.update(x, frame[x].update(y, glyph))
}

/// Whether `frame` has the dimensions of the grid.
pub open spec fn is_frame(frame: Seq<Seq<char>>) -> bool {
    &&& frame.len() == NUM_COLUMNS
    &&& forall|x: int| 0 <= x < NUM_COLUMNS ==> (#[trigger] frame[x]).len() == NUM_ROWS
}

impl View for Frame {
    type V = Seq<Seq<char>>;

    closed spec fn view(&self) -> Seq<Seq<char>> {
        Seq::new(
            NUM_COLUMNS as nat,
            |x: int| Seq::new(NUM_ROWS as nat, |y: int| self.cells@[x * NUM_ROWS + y]),
        )
    }
}

impl Frame {
    #[verifier::type_invariant]
    spec fn inv(self) -> bool {
        self.cells@.len() == NUM_COLUMNS * NUM_ROWS
    }

    /// Every frame has the dimensions of the grid.
    pub proof fn lemma_dimensions(&self)
        ensures
            is_frame(self@),
    {
    }

    /// The glyph at `(x, y)`, or `None` where `(x, y)` is outside the grid.
    pub fn get(&self, x: usize, y: usize) -> (glyph: Option<char>)
        ensures
            glyph == if in_grid(x as int, y as int) {
                Some(self@[x as int][y as int])
            } else {
                None
            },
    {
        proof {
            use_type_invariant(self);
        }
        if x < NUM_COLUMNS && y < NUM_ROWS {
            Some(self.cells[x * NUM_ROWS + y])
        } else {
            None
        }
    }

    /// The glyph at the cell `(x, y)` of the grid.
    pub(crate) fn cell(&self, x: usize, y: usize) -> (glyph: char)
        requires
            in_grid(x as int, y as int),
        ensures
            glyph == self@[x as int][y as int],
    {
        proof {
            use_type_invariant(self);
        }
        self.cells[x * NUM_ROWS + y]
    }

    /// Writes `glyph` at `(x, y)` and leaves every other cell as it was.
    /// Outside the grid nothing is written; the result says whether the
    /// cell exists.
    pub fn set(&mut self, x: usize, y: usize, glyph: char) -> (written: bool)
        ensures
            written == in_grid(x as int, y as int),
            written ==> final(self)@ == with_cell(old(self)@, x as int, y as int, glyph),
            !written ==> final(self)@ == old(self)@,
    {
        proof {
            use_type_invariant(&*self);
        }
        if x < NUM_COLUMNS && y < NUM_ROWS {
            self.cells[x * NUM_ROWS + y] = glyph;
            assert(self@ =~~= with_cell(old(self)@, x as int, y as int, glyph));
            true
        } else {
            false
        }
    }
}

/// `frame` with the glyphs of `glyphs` laid over it: where `glyphs` gives a
/// glyph for a cell, that glyph; elsewhere the cell of `frame`.
pub open spec fn overlay(
    frame: Seq<Seq<char>>,
    glyphs: spec_fn(int, int) -> Option<char>,
) -> Seq<Seq<char>> {
    Seq::new(
        NUM_COLUMNS as nat,
        |x: int|
            Seq::new(
                NUM_ROWS as nat,
                |y: int|
                    match glyphs(x, y) {
                        Some(glyph) => glyph,
                        None => frame[x][y],
                    },
            ),
    )
}

/// Something that can show itself in a frame.
pub trait Drawable {
    /// The glyph that the entity shows at the cell `(x, y)`, or `None` where
    /// it leaves the cell alone.
    spec fn glyph_at(&self, x: int, y: int) -> Option<char>;

    /// Draws the entity into `frame`: the cells it occupies get its glyphs,
    /// every other cell stays as it was.
    fn draw(&self, frame: &mut Frame)
        ensures
            final(frame)@ == overlay(old(frame)@, |x: int, y: int| self.glyph_at(x, y)),
    ;
}

/// A fresh frame: every cell is empty.
pub fn new_frame() -> (frame: Frame)
    ensures
        frame@ == blank(),
{
    let mut cells: Vec<char> = Vec::new();
    let mut i: usize = 0;
    while i < NUM_COLUMNS * NUM_ROWS
        invariant
            i <= NUM_COLUMNS * NUM_ROWS,
            cells@.len() == i,
            forall|k: int| 0 <= k < i ==> cells@[k] == EMPTY,
        decreases NUM_COLUMNS * NUM_ROWS - i,
    {
        cells.push(EMPTY);
        i += 1;
    }
    let frame = Frame { cells };
    assert(frame@ =~~= blank());
    frame
}

} // verus!
