//! The universe: the grid in memory and the operations on it.

use crate::cell::Cell;
use crate::error::UniverseError;
use crate::grid::Grid;
use crate::laws::law_dead_grid_next;
use crate::random::{draw_mutates, random_bits};
use vstd::prelude::*;

verus! {

/// The number of columns of a universe made by [`Universe::new`].
pub const INITIAL_WIDTH: u32 = 128;

/// The number of rows of a universe made by [`Universe::new`].
pub const INITIAL_HEIGHT: u32 = 128;

/// A Game of Life universe on a torus.
pub struct Universe {
    width: u32,
    height: u32,
    cells: Vec<Cell>,
}

impl View for Universe {
    type V = Grid;

    closed spec fn view(&self) -> Grid {
        Grid { width: self.width as nat, height: self.height as nat, cells: self.cells@ }
    }
}

impl Universe {
    /// The universe holds one cell for each coordinate.
    pub open spec fn wf(&self) -> bool {
        self@.wf()
    }

    /// A universe of 128 by 128 cells, each alive or dead as one draw from
    /// the random source decides: alive where the draw lies above one half.
    pub fn new() -> (universe: Universe)
        ensures
            universe.wf(),
            universe@.width == INITIAL_WIDTH,
            universe@.height == INITIAL_HEIGHT,
    {
        assert(INITIAL_WIDTH * INITIAL_HEIGHT == 16384) by (nonlinear_arith)
            requires
                INITIAL_WIDTH == 128,
                INITIAL_HEIGHT == 128,
        ;
        let count: usize = (INITIAL_WIDTH as usize) * (INITIAL_HEIGHT as usize);
        let mut cells: Vec<Cell> = Vec::with_capacity(count);
        while cells.len() < count
            invariant
                cells.len() <= count,
            decreases count - cells.len(),
        {
            cells.push(Cell::from_draw(random_bits()));
        }
        Universe { width: INITIAL_WIDTH, height: INITIAL_HEIGHT, cells }
    }

    /// A universe of the given dimensions in which every cell is dead.
    pub fn with_dimensions(width: u32, height: u32) -> (universe: Universe)
        requires
            width * height <= u32::MAX,
        ensures
            universe.wf(),
            universe@ == Grid::dead(width as nat, height as nat),
    {
        let cells = dead_cells(width, height);
        Universe { width, height, cells }
    }

    /// The number of columns.
    pub fn width(&self) -> (width: u32)
        ensures
            width == self@.width,
    {
        self.width
    }

    /// The number of rows.
    pub fn height(&self) -> (height: u32)
        ensures
            height == self@.height,
    {
        self.height
    }

    /// The cells of the whole universe, row by row.
    pub fn get_cells(&self) -> (cells: &[Cell])
        ensures
            cells@ == self@.cells,
    {
        self.cells.as_slice()
    }

    /// Where the cell at `(row, column)` stands among the cells.
    pub fn get_index(&self, row: u32, column: u32) -> (index: usize)
        requires
            self.wf(),
            self@.contains(row as int, column as int),
        ensures
            index == self@.index(row as int, column as int),
            index < self@.cells.len(),
    {
        proof {
            self@.lemma_index(row as int, column as int);
        }
        (row as usize) * (self.width as usize) + (column as usize)
    }

    /// What the cell at `(row, column)` adds to a neighbour count.
    fn value_at(&self, row: u32, column: u32) -> (value: u8)
        requires
            self.wf(),
            self@.contains(row as int, column as int),
        ensures
            value == self@.at(row as int, column as int).spec_value(),
            value <= 1,
    {
        let index = self.get_index(row, column);
        self.cells[index].value()
    }

    /// How many of the eight cells around `(row, column)` are alive, where
    /// the grid's edges are joined to the opposite edges.
    pub fn live_neighbor_count(&self, row: u32, column: u32) -> (count: u8)
        requires
            self.wf(),
            self@.contains(row as int, column as int),
        ensures
            count == self@.live_neighbor_count(row as int, column as int),
            count <= 8,
    {
        let north = if row == 0 {
            self.height - 1
        } else {
            row - 1
        };
        let south = if row == self.height - 1 {
            0
        } else {
            row + 1
        };
        let west = if column == 0 {
            self.width - 1
        } else {
            column - 1
        };
        let east = if column == self.width - 1 {
            0
        } else {
            column + 1
        };
        proof {
            self@.lemma_wrap(row as int, column as int);
            self@.lemma_live_neighbor_count(row as int, column as int);
            assert(north == self@.north(row as int));
            assert(south == self@.south(row as int));
            assert(west == self@.west(column as int));
            assert(east == self@.east(column as int));
        }
        let mut count: u8 = 0;
        count += self.value_at(north, west);
        count += self.value_at(north, column);
        count += self.value_at(north, east);
        count += self.value_at(row, west);
        count += self.value_at(row, east);
        count += self.value_at(south, west);
        count += self.value_at(south, column);
        count += self.value_at(south, east);
        count
    }

    /// The cells of the next generation, computed from this one into a
    /// buffer of their own, with the mutation flag that each cell was moved
    /// by: the flag given for it, or else a fresh draw from the random source
    /// for each cell that has more than one live neighbour.
    fn next_generation(&self, given: Option<&[bool]>) -> (next: (Vec<Cell>, Ghost<Seq<bool>>))
        requires
            self.wf(),
            given matches Some(flags) ==> flags@.len() == self@.cells.len(),
        ensures
            next.1@.len() == self@.cells.len(),
            given matches Some(flags) ==> next.1@ == flags@,
            next.0@ == self@.tick(next.1@).cells,
    {
        let mut next: Vec<Cell> = Vec::with_capacity(self.cells.len());
        let ghost mut used: Seq<bool> = Seq::empty();
        let mut row: u32 = 0;
        while row < self.height
            invariant
                self.wf(),
                given matches Some(flags) ==> flags@.len() == self@.cells.len(),
                row <= self.height,
                next.len() == row * self.width,
                used.len() == next.len(),
                forall|i: int| 0 <= i < next.len() ==> next[i] == self@.next_cell(i, used[i]),
                given matches Some(flags) ==> forall|i: int|
                    0 <= i < next.len() ==> used[i] == flags[i],
            decreases self.height - row,
        {
            let mut column: u32 = 0;
            while column < self.width
                invariant
                    self.wf(),
                    given matches Some(flags) ==> flags@.len() == self@.cells.len(),
                    row < self.height,
                    column <= self.width,
                    next.len() == row * self.width + column,
                    used.len() == next.len(),
                    forall|i: int| 0 <= i < next.len() ==> next[i] == self@.next_cell(i, used[i]),
                    given matches Some(flags) ==> forall|i: int|
                        0 <= i < next.len() ==> used[i] == flags[i],
                decreases self.width - column,
            {
                let index = self.get_index(row, column);
                proof {
                    self@.lemma_index(row as int, column as int);
                }
                let cell = self.cells[index];
                let live_neighbors = self.live_neighbor_count(row, column);
                let mutate = match given {
                    Some(flags) => flags[index],
                    None => live_neighbors > 1 && draw_mutates(random_bits()),
                };
                next.push(cell.next(live_neighbors, mutate));
                proof {
                    used = used.push(mutate);
                }
                column += 1;
            }
            proof {
                assert((row + 1) * self.width == row * self.width + self.width)
                    by (nonlinear_arith);
            }
            row += 1;
        }
        proof {
            assert(self.height * self.width == self.width * self.height) by (nonlinear_arith);
            assert(next@ =~= self@.tick(used).cells);
            if let Some(flags) = given {
                assert(used =~= flags@);
            }
        }
        (next, Ghost(used))
    }

    /// Advances the universe by one generation. Every cell moves by the
    /// transition table on the neighbour counts of the generation before;
    /// a cell with more than one live neighbour takes a fresh draw from the
    /// random source and comes alive where the draw falls below the mutation
    /// threshold. So the result is the next generation under some flags, and
    /// a universe without a live cell stays as it is.
    pub fn tick(&mut self)
        requires
            old(self).wf(),
        ensures
            final(self).wf(),
            exists|mutations: Seq<bool>|
                mutations.len() == old(self)@.cells.len()
                    && final(self)@ == #[trigger] old(self)@.tick(mutations),
            old(self)@.all_dead() ==> final(self)@ == old(self)@,
    {
        let (next, Ghost(used)) = self.next_generation(None);
        let ghost before = self@;
        self.cells = next;
        assert(self@ == before.tick(used));
        proof {
            if before.all_dead() {
                law_dead_grid_next(before, used);
            }
        }
    }

    /// Advances the universe by one generation in which the cell at place
    /// `i` mutates exactly where `mutations[i]` is set and the cell has more
    /// than one live neighbour.
    pub fn tick_with(&mut self, mutations: &[bool])
        requires
            old(self).wf(),
            mutations@.len() == old(self)@.cells.len(),
        ensures
            final(self).wf(),
            final(self)@ == old(self)@.tick(mutations@),
    {
        let (next, _) = self.next_generation(Some(mutations));
        self.cells = next;
    }

    /// Flips the cell at `(row, column)` and leaves every other cell alone.
    pub fn toggle_cell(&mut self, row: u32, column: u32)
        requires
            old(self).wf(),
            old(self)@.contains(row as int, column as int),
        ensures
            final(self).wf(),
            final(self)@ == old(self)@.toggled(row as int, column as int),
    {
        let index = self.get_index(row, column);
        let mut cell = self.cells[index];
        cell.toggle();
        self.cells.set(index, cell);
    }

    /// Flips the cell at `(row, column)` where there is one, and otherwise
    /// says that there is none and changes nothing.
    pub fn try_toggle_cell(&mut self, row: u32, column: u32) -> (result: Result<(), UniverseError>)
        requires
            old(self).wf(),
        ensures
            final(self).wf(),
            result is Ok <==> old(self)@.contains(row as int, column as int),
            result is Ok ==> final(self)@ == old(self)@.toggled(row as int, column as int),
            result is Err ==> final(self)@ == old(self)@,
            result is Err ==> result->Err_0 == (UniverseError::InvalidCoordinate { row, column }),
    {
        if row < self.height && column < self.width {
            self.toggle_cell(row, column);
            Ok(())
        } else {
            Err(UniverseError::InvalidCoordinate { row, column })
        }
    }

    /// Sets every listed cell alive. Cells that are not listed stay as they
    /// are, and a cell listed twice is set once.
    pub fn set_cells(&mut self, cells: &[(u32, u32)])
        requires
            old(self).wf(),
            old(self)@.contains_all(cells@),
        ensures
            final(self).wf(),
            final(self)@ == old(self)@.with_cells(cells@),
    {
        let ghost before = self@;
        proof {
            before.lemma_with_no_cells();
            assert(cells@.take(0) =~= Seq::<(u32, u32)>::empty());
        }
        let mut k: usize = 0;
        while k < cells.len()
            invariant
                k <= cells.len(),
                before.wf(),
                before.contains_all(cells@),
                self.width == before.width,
                self.height == before.height,
                self.cells@ == before.with_cells(cells@.take(k as int)).cells,
            decreases cells.len() - k,
        {
            let (row, column) = cells[k];
            assert(before.contains(cells@[k as int].0 as int, cells@[k as int].1 as int));
            let index = self.get_index(row, column);
            proof {
                before.lemma_with_cells_step(cells@, k as int);
            }
            self.cells.set(index, Cell::Alive);
            k += 1;
        }
        assert(cells@.take(cells@.len() as int) =~= cells@);
    }

    /// Sets every listed cell alive where every listed coordinate names a
    /// cell. Otherwise it changes nothing and names the first listed
    /// coordinate that names none.
    pub fn try_set_cells(&mut self, cells: &[(u32, u32)]) -> (result: Result<(), UniverseError>)
        requires
            old(self).wf(),
        ensures
            final(self).wf(),
            result is Ok <==> old(self)@.contains_all(cells@),
            result is Ok ==> final(self)@ == old(self)@.with_cells(cells@),
            result is Err ==> final(self)@ == old(self)@,
            result is Err ==> old(self)@.first_outside(cells@, result->Err_0),
    {
        let mut k: usize = 0;
        while k < cells.len()
            invariant
                k <= cells.len(),
                self.wf(),
                self@ == old(self)@,
                self@.contains_all(cells@.take(k as int)),
            decreases cells.len() - k,
        {
            let (row, column) = cells[k];
            if !(row < self.height && column < self.width) {
                return Err(UniverseError::InvalidCoordinate { row, column });
            }
            proof {
                let longer = cells@.take(k + 1);
                assert forall|j: int| 0 <= j < longer.len() implies self@.contains(
                    (#[trigger] longer[j]).0 as int,
                    longer[j].1 as int,
                ) by {
                    if j < k {
                        assert(cells@.take(k as int)[j] == longer[j]);
                    }
                }
            }
            k += 1;
        }
        assert(cells@.take(cells@.len() as int) =~= cells@);
        self.set_cells(cells);
        Ok(())
    }

    /// Gives the universe `width` columns and sets every cell dead. The
    /// height stays.
    pub fn set_width(&mut self, width: u32)
        requires
            width * old(self)@.height <= u32::MAX,
        ensures
            final(self).wf(),
            final(self)@ == Grid::dead(width as nat, old(self)@.height),
    {
        self.width = width;
        self.cells = dead_cells(width, self.height);
    }

    /// Gives the universe `height` rows and sets every cell dead. The width
    /// stays.
    pub fn set_height(&mut self, height: u32)
        requires
            old(self)@.width * height <= u32::MAX,
        ensures
            final(self).wf(),
            final(self)@ == Grid::dead(old(self)@.width, height as nat),
    {
        self.height = height;
        self.cells = dead_cells(self.width, height);
    }
}

/// As many dead cells as a grid of the given dimensions has.
fn dead_cells(width: u32, height: u32) -> (cells: Vec<Cell>)
    requires
        width * height <= u32::MAX,
    ensures
        cells@ == Grid::dead(width as nat, height as nat).cells,
{
    let count: usize = (width as usize) * (height as usize);
    let mut cells: Vec<Cell> = Vec::with_capacity(count);
    while cells.len() < count
        invariant
            cells.len() <= count,
            forall|i: int| 0 <= i < cells.len() ==> cells[i] == Cell::Dead,
        decreases count - cells.len(),
    {
        cells.push(Cell::Dead);
    }
    assert(cells@ =~= Grid::dead(width as nat, height as nat).cells);
    cells
}

} // verus!
