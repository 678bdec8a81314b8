//! The mathematical model of a universe: what every contract of the crate is
//! stated over.

use crate::cell::Cell;
use crate::error::UniverseError;
use vstd::prelude::*;

verus! {

/// A grid of cells on a torus: `cells` holds the rows one after another.
pub struct Grid {
    pub width: nat,
    pub height: nat,
    pub cells: Seq<Cell>,
}

impl Grid {
    /// There is one cell for each coordinate, and the cell count fits the
    /// 32-bit arithmetic that coordinates are computed in.
    pub open spec fn wf(self) -> bool {
        &&& self.width <= u32::MAX
        &&& self.height <= u32::MAX
        &&& self.width * self.height <= u32::MAX
        &&& self.cells.len() == self.width * self.height
    }

    /// The coordinate lies on the grid.
    pub open spec fn contains(self, row: int, column: int) -> bool {
        0 <= row < self.height && 0 <= column < self.width
    }

    /// Where the cell at a coordinate stands in `cells`.
    pub open spec fn index(self, row: int, column: int) -> int {
        row * self.width + column
    }

    /// The cell at a coordinate.
    pub open spec fn at(self, row: int, column: int) -> Cell {
        self.cells[self.index(row, column)]
    }

    /// The row above `row`; above the first row lies the last.
    pub open spec fn north(self, row: int) -> int {
        (row - 1) % (self.height as int)
    }

    /// The row below `row`; below the last row lies the first.
    pub open spec fn south(self, row: int) -> int {
        (row + 1) % (self.height as int)
    }

    /// The column left of `column`; left of the first column lies the last.
    pub open spec fn west(self, column: int) -> int {
        (column - 1) % (self.width as int)
    }

    /// The column right of `column`; right of the last column lies the first.
    pub open spec fn east(self, column: int) -> int {
        (column + 1) % (self.width as int)
    }

    /// The eight coordinates around a cell, row by row from the north-west.
    pub open spec fn neighbors(self, row: int, column: int) -> Seq<(int, int)> {
        seq![
            (self.north(row), self.west(column)),
            (self.north(row), column),
            (self.north(row), self.east(column)),
            (row, self.west(column)),
            (row, self.east(column)),
            (self.south(row), self.west(column)),
            (self.south(row), column),
            (self.south(row), self.east(column)),
        ]
    }

    /// What the `k`-th neighbour of a cell adds to its count.
    pub open spec fn neighbor_value(self, row: int, column: int, k: int) -> int {
        let place = self.neighbors(row, column)[k];
        self.at(place.0, place.1).spec_value()
    }

    /// How many of the eight neighbours of a cell are alive.
    pub open spec fn live_neighbor_count(self, row: int, column: int) -> int {
        self.neighbor_value(row, column, 0) + self.neighbor_value(row, column, 1)
            + self.neighbor_value(row, column, 2) + self.neighbor_value(row, column, 3)
            + self.neighbor_value(row, column, 4) + self.neighbor_value(row, column, 5)
            + self.neighbor_value(row, column, 6) + self.neighbor_value(row, column, 7)
    }

    /// Every cell is dead.
    pub open spec fn all_dead(self) -> bool {
        forall|i: int| 0 <= i < self.cells.len() ==> self.cells[i] == Cell::Dead
    }

    /// The grid of the given dimensions in which every cell is dead.
    pub open spec fn dead(width: nat, height: nat) -> Grid {
        Grid { width, height, cells: Seq::new(width * height, |i: int| Cell::Dead) }
    }

    /// The row of the cell that stands at place `i` of `cells`.
    pub open spec fn row_of(self, i: int) -> int {
        i / (self.width as int)
    }

    /// The column of the cell that stands at place `i` of `cells`.
    pub open spec fn column_of(self, i: int) -> int {
        i % (self.width as int)
    }

    /// The state in the next generation of the cell at place `i`, where
    /// `mutate` says whether its draw fell below the mutation threshold.
    pub open spec fn next_cell(self, i: int, mutate: bool) -> Cell {
        self.cells[i].spec_next(
            self.live_neighbor_count(self.row_of(i), self.column_of(i)),
            mutate,
        )
    }

    /// The next generation: every cell moves at once, by the neighbour
    /// counts of this generation. `mutations` holds one flag for each cell.
    pub open spec fn tick(self, mutations: Seq<bool>) -> Grid {
        Grid {
            width: self.width,
            height: self.height,
            cells: Seq::new(self.cells.len(), |i: int| self.next_cell(i, mutations[i])),
        }
    }

    /// The grid after one generation for each entry of `schedule`, the
    /// first entry first.
    pub open spec fn run(self, schedule: Seq<Seq<bool>>) -> Grid
        decreases schedule.len(),
    {
        if schedule.len() == 0 {
            self
        } else {
            self.run(schedule.drop_last()).tick(schedule.last())
        }
    }

    /// The grid with the cell at one coordinate flipped.
    pub open spec fn toggled(self, row: int, column: int) -> Grid {
        Grid {
            width: self.width,
            height: self.height,
            cells: self.cells.update(self.index(row, column), self.at(row, column).toggled()),
        }
    }

    /// Whether one of the listed coordinates names the cell at place `i`.
    pub open spec fn marks(self, coordinates: Seq<(u32, u32)>, i: int) -> bool {
        exists|k: int|
            0 <= k < coordinates.len() && self.index(
                (#[trigger] coordinates[k]).0 as int,
                coordinates[k].1 as int,
            ) == i
    }

    /// The grid with every listed cell alive and every other cell as it was.
    pub open spec fn with_cells(self, coordinates: Seq<(u32, u32)>) -> Grid {
        Grid {
            width: self.width,
            height: self.height,
            cells: Seq::new(
                self.cells.len(),
                |i: int|
                    if self.marks(coordinates, i) {
                        Cell::Alive
                    } else {
                        self.cells[i]
                    },
            ),
        }
    }

    /// Every listed coordinate lies on the grid.
    pub open spec fn contains_all(self, coordinates: Seq<(u32, u32)>) -> bool {
        forall|k: int|
            0 <= k < coordinates.len() ==> self.contains(
                (#[trigger] coordinates[k]).0 as int,
                coordinates[k].1 as int,
            )
    }

    /// `error` names the first listed coordinate that does not lie on the
    /// grid.
    pub open spec fn first_outside(
        self,
        coordinates: Seq<(u32, u32)>,
        error: UniverseError,
    ) -> bool {
        exists|k: int|
            0 <= k < coordinates.len() && self.contains_all(coordinates.take(k)) && !self.contains(
                (#[trigger] coordinates[k]).0 as int,
                coordinates[k].1 as int,
            ) && error == (UniverseError::InvalidCoordinate {
                row: coordinates[k].0,
                column: coordinates[k].1,
            })
    }

    /// A coordinate on the grid has a place in `cells`, and the place gives
    /// the coordinate back.
    pub proof fn lemma_index(self, row: int, column: int)
        requires
            self.wf(),
            self.contains(row, column),
        ensures
            0 <= self.index(row, column) < self.cells.len(),
            self.index(row, column) / (self.width as int) == row,
            self.index(row, column) % (self.width as int) == column,
    {
        let w = self.width as int;
        let h = self.height as int;
        assert(row * w + w <= h * w) by (nonlinear_arith)
            requires
                0 <= row < h,
                0 <= w,
        ;
        assert(0 <= row * w) by (nonlinear_arith)
            requires
                0 <= row,
                0 <= w,
        ;
        assert(h * w == w * h) by (nonlinear_arith);
        vstd::arithmetic::div_mod::lemma_fundamental_div_mod_converse(
            row * w + column,
            w,
            row,
            column,
        );
    }

    /// A place in `cells` belongs to exactly one coordinate on the grid.
    pub proof fn lemma_coordinate(self, i: int)
        requires
            self.wf(),
            0 <= i < self.cells.len(),
        ensures
            self.contains(i / (self.width as int), i % (self.width as int)),
            self.index(i / (self.width as int), i % (self.width as int)) == i,
    {
        let w = self.width as int;
        let h = self.height as int;
        assert(w > 0) by (nonlinear_arith)
            requires
                0 <= i < w * h,
                0 <= w,
        ;
        vstd::arithmetic::div_mod::lemma_fundamental_div_mod(i, w);
        vstd::arithmetic::div_mod::lemma_mod_bound(i, w);
        let q = i / w;
        assert(0 <= q < h) by (nonlinear_arith)
            requires
                0 <= i < w * h,
                w > 0,
                i == w * q + i % w,
                0 <= i % w < w,
        ;
        assert(q * w == w * q) by (nonlinear_arith);
    }

    /// Marking one more coordinate of a list sets one more cell alive.
    pub proof fn lemma_with_cells_step(self, coordinates: Seq<(u32, u32)>, k: int)
        requires
            0 <= k < coordinates.len(),
            0 <= self.index(coordinates[k].0 as int, coordinates[k].1 as int) < self.cells.len(),
        ensures
            self.with_cells(coordinates.take(k + 1)).cells == self.with_cells(
                coordinates.take(k),
            ).cells.update(
                self.index(coordinates[k].0 as int, coordinates[k].1 as int),
                Cell::Alive,
            ),
    {
        let shorter = coordinates.take(k);
        let longer = coordinates.take(k + 1);
        let place = self.index(coordinates[k].0 as int, coordinates[k].1 as int);
        assert forall|i: int| 0 <= i < self.cells.len() implies self.marks(longer, i) == (
        self.marks(shorter, i) || i == place) by {
            if self.marks(shorter, i) {
                let j = choose|j: int|
                    0 <= j < shorter.len() && self.index(
                        (#[trigger] shorter[j]).0 as int,
                        shorter[j].1 as int,
                    ) == i;
                assert(longer[j] == shorter[j]);
            }
            if i == place {
                assert(longer[k] == coordinates[k]);
            }
            if self.marks(longer, i) {
                let j = choose|j: int|
                    0 <= j < longer.len() && self.index(
                        (#[trigger] longer[j]).0 as int,
                        longer[j].1 as int,
                    ) == i;
                if j < k {
                    assert(shorter[j] == longer[j]);
                } else {
                    assert(longer[j] == coordinates[k]);
                }
            }
        }
        assert(self.with_cells(longer).cells =~= self.with_cells(shorter).cells.update(
            place,
            Cell::Alive,
        ));
    }

    /// Marking no coordinate leaves the grid as it is.
    pub proof fn lemma_with_no_cells(self)
        ensures
            self.with_cells(Seq::empty()) == self,
    {
        assert(self.with_cells(Seq::empty()).cells =~= self.cells);
    }

    /// Each of the eight neighbours of a cell on the grid lies on the grid.
    pub proof fn lemma_neighbors_on_grid(self, row: int, column: int)
        requires
            self.contains(row, column),
        ensures
            self.neighbors(row, column).len() == 8,
            forall|k: int|
                0 <= k < 8 ==> self.contains(
                    (#[trigger] self.neighbors(row, column)[k]).0,
                    self.neighbors(row, column)[k].1,
                ),
    {
        self.lemma_wrap(row, column);
    }

    /// The neighbour count written out, cell by cell.
    pub proof fn lemma_live_neighbor_count(self, row: int, column: int)
        ensures
            self.live_neighbor_count(row, column) == self.at(
                self.north(row),
                self.west(column),
            ).spec_value() + self.at(self.north(row), column).spec_value() + self.at(
                self.north(row),
                self.east(column),
            ).spec_value() + self.at(row, self.west(column)).spec_value() + self.at(
                row,
                self.east(column),
            ).spec_value() + self.at(self.south(row), self.west(column)).spec_value() + self.at(
                self.south(row),
                column,
            ).spec_value() + self.at(self.south(row), self.east(column)).spec_value(),
    {
        let around = self.neighbors(row, column);
        assert(around[0] == (self.north(row), self.west(column)));
        assert(around[1] == (self.north(row), column));
        assert(around[2] == (self.north(row), self.east(column)));
        assert(around[3] == (row, self.west(column)));
        assert(around[4] == (row, self.east(column)));
        assert(around[5] == (self.south(row), self.west(column)));
        assert(around[6] == (self.south(row), column));
        assert(around[7] == (self.south(row), self.east(column)));
    }

    /// On a grid with at least one cell the four wrapping steps stay on the
    /// grid, and step over the edge only at the edge.
    pub proof fn lemma_wrap(self, row: int, column: int)
        requires
            self.contains(row, column),
        ensures
            self.north(row) == if row == 0 { self.height - 1 } else { row - 1 },
            self.south(row) == if row == self.height - 1 { 0 } else { row + 1 },
            self.west(column) == if column == 0 { self.width - 1 } else { column - 1 },
            self.east(column) == if column == self.width - 1 { 0 } else { column + 1 },
    {
        lemma_step_back(row, self.height as int);
        lemma_step_forward(row, self.height as int);
        lemma_step_back(column, self.width as int);
        lemma_step_forward(column, self.width as int);
    }
}

proof fn lemma_step_back(x: int, n: int)
    requires
        0 <= x < n,
    ensures
        (x - 1) % n == if x == 0 { n - 1 } else { x - 1 },
{
    if x == 0 {
        vstd::arithmetic::div_mod::lemma_fundamental_div_mod_converse(-1, n, -1, n - 1);
    } else {
        vstd::arithmetic::div_mod::lemma_small_mod((x - 1) as nat, n as nat);
    }
}

proof fn lemma_step_forward(x: int, n: int)
    requires
        0 <= x < n,
    ensures
        (x + 1) % n == if x == n - 1 { 0 } else { x + 1 },
{
    if x == n - 1 {
        vstd::arithmetic::div_mod::lemma_fundamental_div_mod_converse(n, n, 1, 0);
    } else {
        vstd::arithmetic::div_mod::lemma_small_mod((x + 1) as nat, n as nat);
    }
}

} // verus!
