//! The drawing area: a grid of character cells, addressed in row-major order.

use vstd::arithmetic::div_mod::lemma_fundamental_div_mod_converse;
use vstd::prelude::*;

verus! {

/// Glyph that `fill_terminal` puts in every cell.
pub const FILL_GLYPH: char = '#';

/// Glyph that ends a row of output.
pub const LINE_BREAK: char = '\n';

/// A drawing area of `width × height` character cells. Both sides are positive.
#[derive(Clone, Copy, Debug, PartialEq, Eq)]
pub struct Terminal3d {
    x: u16,
    y: u16,
}

/// Offset of the cell in column `x` of row `y` on a grid that is `width` cells
/// wide and `height` cells high, counted row by row; `None` outside the grid.
pub open spec fn cell_offset(width: nat, height: nat, x: int, y: int) -> Option<int> {
    if 0 <= x < width && 0 <= y < height {
        Some(y * width + x)
    } else {
        None
    }
}

/// Text that fills a grid: `height` rows of `width` fill glyphs, each row
/// followed by a line break.
pub open spec fn fill_text(width: nat, height: nat) -> Seq<char> {
    Seq::new(
        height * (width + 1),
        |k: int|
            if k % (width as int + 1) == width as int {
                LINE_BREAK
            } else {
                FILL_GLYPH
            },
    )
}

impl Terminal3d {
    /// Number of columns.
    pub closed spec fn width(self) -> nat {
        self.x as nat
    }

    /// Number of rows.
    pub closed spec fn height(self) -> nat {
        self.y as nat
    }

    /// Both sides are positive.
    #[verifier::type_invariant]
    pub closed spec fn wf(self) -> bool {
        self.x > 0 && self.y > 0
    }

    /// A well-formed drawing area has positive sides of at most `u16::MAX` cells.
    pub proof fn lemma_sides(self)
        requires
            self.wf(),
        ensures
            0 < self.width() <= u16::MAX,
            0 < self.height() <= u16::MAX,
    {
    }

    /// The drawing area of a terminal that reports `columns × rows` cells:
    /// exactly that size, or `None` when the terminal has no cell at all.
    pub fn new(columns: u16, rows: u16) -> (area: Option<Terminal3d>)
        ensures
            area is Some <==> columns > 0 && rows > 0,
            area matches Some(t) ==> t.width() == columns && t.height() == rows,
    {
        if columns == 0 || rows == 0 {
            None
        } else {
            Some(Terminal3d { x: columns, y: rows })
        }
    }

    /// Width and height, in cells.
    pub fn get_size(&self) -> (size: (usize, usize))
        ensures
            size.0 == self.width(),
            size.1 == self.height(),
            0 < size.0 <= u16::MAX,
            0 < size.1 <= u16::MAX,
    {
        proof {
            use_type_invariant(self);
        }
        (self.x as usize, self.y as usize)
    }

    /// Number of cells.
    pub fn cell_count(&self) -> (cells: usize)
        ensures
            cells == self.width() * self.height(),
            0 < cells <= u16::MAX * u16::MAX,
    {
        proof {
            use_type_invariant(self);
            lemma_area_fits(self.x as nat, self.y as nat);
        }
        (self.x as usize) * (self.y as usize)
    }

    /// Row-major offset of the cell in column `x` of row `y`. A position is on
    /// the drawing area exactly when `0 <= x < width` and `0 <= y < height`;
    /// every other position has no cell.
    pub fn cell_index(&self, x: i64, y: i64) -> (index: Option<usize>)
        ensures
            index is Some <==> 0 <= x < self.width() && 0 <= y < self.height(),
            index matches Some(i) ==> i == y * self.width() + x && i < self.width()
                * self.height(),
            index == match cell_offset(self.width(), self.height(), x as int, y as int) {
                Some(i) => Some(i as usize),
                None => None,
            },
    {
        proof {
            use_type_invariant(self);
        }
        if x < 0 || y < 0 || x >= self.x as i64 || y >= self.y as i64 {
            return None;
        }
        proof {
            lemma_offset_in_range(self.x as nat, self.y as nat, x as int, y as int);
            lemma_area_fits(self.x as nat, self.y as nat);
        }
        let offset: usize = (y as usize) * (self.x as usize) + (x as usize);
        Some(offset)
    }

    /// The text that fills the drawing area: every row is `width` fill
    /// glyphs and a line break.
    pub fn fill_terminal(&self) -> (text: Vec<char>)
        ensures
            text@ == fill_text(self.width(), self.height()),
    {
        proof {
            use_type_invariant(self);
        }
        let width: usize = self.x as usize;
        let height: usize = self.y as usize;
        let mut text: Vec<char> = Vec::new();
        let mut row: usize = 0;
        while row < height
            invariant
                width == self.width(),
                height == self.height(),
                row <= height,
                text@.len() == row * (width + 1),
                forall|k: int|
                    0 <= k < text@.len() ==> text@[k] == fill_text(self.width(), self.height())[k],
            decreases height - row,
        {
            let mut column: usize = 0;
            while column < width
                invariant
                    width == self.width(),
                    height == self.height(),
                    row < height,
                    column <= width,
                    text@.len() == row * (width + 1) + column,
                    forall|k: int|
                        0 <= k < text@.len() ==> text@[k] == fill_text(
                            self.width(),
                            self.height(),
                        )[k],
                decreases width - column,
            {
                proof {
                    lemma_offset_in_range((width + 1) as nat, height as nat, column as int, row as int);
                    lemma_fundamental_div_mod_converse(
                        row * (width + 1) + column,
                        width + 1,
                        row as int,
                        column as int,
                    );
                }
                text.push(FILL_GLYPH);
                column = column + 1;
            }
            proof {
                lemma_offset_in_range((width + 1) as nat, height as nat, width as int, row as int);
                lemma_fundamental_div_mod_converse(
                    row * (width + 1) + width,
                    width + 1,
                    row as int,
                    width as int,
                );
                assert(row * (width + 1) + width + 1 == (row + 1) * (width + 1))
                    by (nonlinear_arith);
            }
            text.push(LINE_BREAK);
            row = row + 1;
        }
        proof {
            assert(text@ =~= fill_text(self.width(), self.height()));
        }
        text
    }
}

/// A grid with sides of at most `u16::MAX` cells has at most `u16::MAX`
/// squared cells, which a `usize` of 32 bits or more can count.
pub proof fn lemma_area_fits(width: nat, height: nat)
    requires
        0 < width <= u16::MAX,
        0 < height <= u16::MAX,
    ensures
        0 < width * height <= u16::MAX * u16::MAX,
        width * height <= usize::MAX,
{
    assert(0 < width * height <= 65535 * 65535) by (nonlinear_arith)
        requires
            0 < width <= 65535,
            0 < height <= 65535,
    ;
}

/// A position on the grid has an offset below the number of cells.
pub proof fn lemma_offset_in_range(width: nat, height: nat, x: int, y: int)
    requires
        0 <= x < width,
        0 <= y < height,
    ensures
        0 <= y * width <= y * width + x < width * height,
{
    assert(0 <= y * width && y * width + width <= width * height) by (nonlinear_arith)
        requires
            0 <= y < height,
            0 <= width,
    ;
}

} // verus!
