//! The universe as text: one glyph for each cell and one line for each row.

use crate::cell::Cell;
use crate::grid::Grid;
use crate::universe::Universe;
use vstd::prelude::*;
use vstd::string::StringExecFns;

verus! {

/// The glyph of a dead cell, a white medium square.
pub const DEAD_GLYPH: char = '\u{25FB}';

/// The glyph of a live cell, a black medium square.
pub const ALIVE_GLYPH: char = '\u{25FC}';

impl Cell {
    /// The glyph that stands for the cell.
    pub open spec fn glyph(self) -> char {
        if self == Cell::Alive {
            ALIVE_GLYPH
        } else {
            DEAD_GLYPH
        }
    }
}

impl Grid {
    /// One row as text: the glyphs of its cells, then a line break.
    pub open spec fn row_text(self, row: int) -> Seq<char> {
        Seq::new(self.width, |column: int| self.at(row, column).glyph()).push('\n')
    }

    /// The first `rows` rows as text.
    pub open spec fn text_of(self, rows: int) -> Seq<char>
        decreases rows,
    {
        if rows <= 0 {
            Seq::empty()
        } else {
            self.text_of(rows - 1) + self.row_text(rows - 1)
        }
    }

    /// The whole grid as text, row by row.
    pub open spec fn text(self) -> Seq<char> {
        self.text_of(self.height as int)
    }
}

impl Universe {
    /// The universe as text: for each row the glyphs of its cells, a white
    /// square for a dead cell and a black square for a live one, and a line
    /// break after each row.
    pub fn render(&self) -> (text: String)
        requires
            self.wf(),
        ensures
            text@ == self@.text(),
    {
        let cells = self.get_cells();
        let mut text = String::new();
        let mut row: u32 = 0;
        while row < self.height()
            invariant
                self.wf(),
                cells@ == self@.cells,
                row <= self@.height,
                text@ == self@.text_of(row as int),
            decreases self@.height - row,
        {
            let ghost before = text@;
            let mut column: u32 = 0;
            while column < self.width()
                invariant
                    self.wf(),
                    cells@ == self@.cells,
                    row < self@.height,
                    column <= self@.width,
                    text@ == before + Seq::new(
                        column as nat,
                        |c: int| self@.at(row as int, c).glyph(),
                    ),
                decreases self@.width - column,
            {
                let index = self.get_index(row, column);
                proof {
                    reveal_strlit("\u{25FB}");
                    reveal_strlit("\u{25FC}");
                }
                if cells[index] == Cell::Dead {
                    text.append("\u{25FB}");
                } else {
                    text.append("\u{25FC}");
                }
                assert(text@ =~= before + Seq::new(
                    (column + 1) as nat,
                    |c: int| self@.at(row as int, c).glyph(),
                ));
                column += 1;
            }
            proof {
                reveal_strlit("\n");
            }
            text.append("\n");
            assert(text@ =~= before + self@.row_text(row as int));
            row += 1;
        }
        text
    }
}

} // verus!
