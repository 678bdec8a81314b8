//! The two-valued cell and the life/death transition table.

use vstd::prelude::*;

verus! {

/// The state of one cell.
#[derive(Clone, Copy, Debug, PartialEq, Eq, Structural)]
pub enum Cell {
    Dead,
    Alive,
}

impl Cell {
    /// What the cell adds to a neighbour count: 1 when alive, 0 when dead.
    pub open spec fn spec_value(self) -> int {
        if self == Cell::Alive {
            1
        } else {
            0
        }
    }

    /// The opposite state.
    pub open spec fn toggled(self) -> Cell {
        if self == Cell::Alive {
            Cell::Dead
        } else {
            Cell::Alive
        }
    }

    /// The transition table: a cell is alive in the next generation exactly
    /// when it has three live neighbours, or is alive and has two.
    pub open spec fn rule(self, live_neighbors: int) -> Cell {
        if live_neighbors == 3 || (self == Cell::Alive && live_neighbors == 2) {
            Cell::Alive
        } else {
            Cell::Dead
        }
    }

    /// The next state under the table and the rare mutation: where the cell
    /// has more than one live neighbour and `mutate` is set, it is forced
    /// alive whatever the table says.
    pub open spec fn spec_next(self, live_neighbors: int, mutate: bool) -> Cell {
        if live_neighbors > 1 && mutate {
            Cell::Alive
        } else {
            self.rule(live_neighbors)
        }
    }

    /// The cell as a neighbour-count term.
    pub fn value(self) -> (v: u8)
        ensures
            v == self.spec_value(),
    {
        match self {
            Cell::Dead => 0,
            Cell::Alive => 1,
        }
    }

    /// Flips the cell in place.
    pub fn toggle(&mut self)
        ensures
            *final(self) == old(self).toggled(),
    {
        *self = match *self {
            Cell::Dead => Cell::Alive,
            Cell::Alive => Cell::Dead,
        };
    }

    /// Applies the transition table for a cell with `live_neighbors` live
    /// neighbours, then the mutation where `mutate` says that this cell's
    /// draw fell below the threshold.
    pub fn next(self, live_neighbors: u8, mutate: bool) -> (c: Cell)
        ensures
            c == self.spec_next(live_neighbors as int, mutate),
    {
        if live_neighbors > 1 && mutate {
            return Cell::Alive;
        }
        match self {
            Cell::Alive => {
                if live_neighbors < 2 {
                    Cell::Dead
                } else if live_neighbors <= 3 {
                    Cell::Alive
                } else {
                    Cell::Dead
                }
            },
            Cell::Dead => {
                if live_neighbors == 3 {
                    Cell::Alive
                } else {
                    Cell::Dead
                }
            },
        }
    }
}

} // verus!
