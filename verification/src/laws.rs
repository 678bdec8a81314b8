//! What holds of every grid, proved over the model that the contracts of
//! the operations are stated in.

use crate::cell::Cell;
use crate::geometry::{live_among, COMPONENTS_PER_CELL};
use crate::grid::Grid;
use vstd::prelude::*;

verus! {

/// Each operation keeps the dimensions and leaves one cell for each
/// coordinate: a generation, a toggle and a marking on any well-formed grid,
/// and a reset to any dimensions whose cell count fits.
pub proof fn law_shape_is_kept(
    grid: Grid,
    mutations: Seq<bool>,
    row: int,
    column: int,
    coordinates: Seq<(u32, u32)>,
)
    requires
        grid.wf(),
    ensures
        grid.tick(mutations).wf(),
        grid.contains(row, column) ==> grid.toggled(row, column).wf(),
        grid.with_cells(coordinates).wf(),
        Grid::dead(grid.width, grid.height).wf(),
{
    if grid.contains(row, column) {
        grid.lemma_index(row, column);
    }
}

/// The torus wraps: on every grid with at least one cell, the first
/// neighbour of the cell at the origin is the cell in the last row and the
/// last column, so that cell is counted among the origin's live neighbours.
pub proof fn law_origin_neighbors_wrap(grid: Grid)
    requires
        grid.wf(),
        grid.width > 0,
        grid.height > 0,
    ensures
        grid.neighbors(0, 0)[0] == (grid.height - 1, grid.width - 1),
        grid.live_neighbor_count(0, 0) >= grid.at(grid.height - 1, grid.width - 1).spec_value(),
{
    grid.lemma_wrap(0, 0);
    grid.lemma_live_neighbor_count(0, 0);
}

/// A neighbour count lies between zero and eight.
pub proof fn law_neighbor_count_range(grid: Grid, row: int, column: int)
    ensures
        0 <= grid.live_neighbor_count(row, column) <= 8,
{
}

/// Without a mutation a generation is the transition table alone: a live
/// cell with fewer than two or more than three live neighbours dies, a live
/// cell with two or three lives on, a dead cell with three comes alive, and
/// a dead cell with any other count stays dead.
pub proof fn law_transition_table(cell: Cell, live_neighbors: int)
    ensures
        cell == Cell::Alive && live_neighbors < 2 ==> cell.spec_next(live_neighbors, false)
            == Cell::Dead,
        cell == Cell::Alive && (live_neighbors == 2 || live_neighbors == 3) ==> cell.spec_next(
            live_neighbors,
            false,
        ) == Cell::Alive,
        cell == Cell::Alive && live_neighbors > 3 ==> cell.spec_next(live_neighbors, false)
            == Cell::Dead,
        cell == Cell::Dead && live_neighbors == 3 ==> cell.spec_next(live_neighbors, false)
            == Cell::Alive,
        cell == Cell::Dead && live_neighbors != 3 ==> cell.spec_next(live_neighbors, false) == cell,
{
}

/// A grid of dead cells is the same grid one generation later, whatever the
/// mutation flags: no cell has a live neighbour, so none can mutate.
pub proof fn law_dead_grid_next(grid: Grid, mutations: Seq<bool>)
    requires
        grid.wf(),
        grid.all_dead(),
    ensures
        grid.tick(mutations) == grid,
{
    assert forall|i: int| 0 <= i < grid.cells.len() implies grid.next_cell(i, mutations[i])
        == Cell::Dead by {
        grid.lemma_coordinate(i);
        let row = grid.row_of(i);
        let column = grid.column_of(i);
        grid.lemma_neighbors_on_grid(row, column);
        assert forall|k: int| 0 <= k < 8 implies grid.neighbor_value(row, column, k) == 0 by {
            let place = grid.neighbors(row, column)[k];
            grid.lemma_index(place.0, place.1);
        }
    }
    assert(grid.tick(mutations).cells =~= grid.cells);
}

/// A grid of dead cells stays as it is through any number of generations,
/// whatever the mutation flags of each.
pub proof fn law_dead_grid_is_stable(grid: Grid, schedule: Seq<Seq<bool>>)
    requires
        grid.wf(),
        grid.all_dead(),
    ensures
        grid.run(schedule) == grid,
    decreases schedule.len(),
{
    if schedule.len() > 0 {
        law_dead_grid_is_stable(grid, schedule.drop_last());
        law_dead_grid_next(grid, schedule.last());
    }
}

/// Marking a list of cells twice gives the grid that marking it once gives.
pub proof fn law_set_cells_idempotent(grid: Grid, coordinates: Seq<(u32, u32)>)
    ensures
        grid.with_cells(coordinates).with_cells(coordinates) == grid.with_cells(coordinates),
{
    let once = grid.with_cells(coordinates);
    assert forall|i: int| 0 <= i < grid.cells.len() implies once.marks(coordinates, i)
        == grid.marks(coordinates, i) by {
        if grid.marks(coordinates, i) {
            let k = choose|k: int|
                0 <= k < coordinates.len() && grid.index(
                    (#[trigger] coordinates[k]).0 as int,
                    coordinates[k].1 as int,
                ) == i;
            assert(once.index(coordinates[k].0 as int, coordinates[k].1 as int) == i);
        }
        if once.marks(coordinates, i) {
            let k = choose|k: int|
                0 <= k < coordinates.len() && once.index(
                    (#[trigger] coordinates[k]).0 as int,
                    coordinates[k].1 as int,
                ) == i;
            assert(grid.index(coordinates[k].0 as int, coordinates[k].1 as int) == i);
        }
    }
    assert(once.with_cells(coordinates).cells =~= once.cells);
}

/// Toggling a cell twice gives the grid back.
pub proof fn law_toggle_is_self_inverse(grid: Grid, row: int, column: int)
    requires
        grid.wf(),
        grid.contains(row, column),
    ensures
        grid.toggled(row, column).toggled(row, column) == grid,
{
    grid.lemma_index(row, column);
    assert(grid.toggled(row, column).toggled(row, column).cells =~= grid.cells);
}

/// The geometry of a grid with `k` live cells has `18 * k` components.
pub proof fn law_geometry_count(grid: Grid)
    ensures
        grid.geometry().len() == COMPONENTS_PER_CELL * grid.live_count(),
{
    grid.lemma_geometry_of_len(grid.cells.len() as int);
    assert(grid.cells.take(grid.cells.len() as int) =~= grid.cells);
}

/// A grid that was reset holds no live cell, and so has no geometry.
pub proof fn law_reset_is_dead(width: nat, height: nat)
    ensures
        Grid::dead(width, height).all_dead(),
        Grid::dead(width, height).live_count() == 0,
        Grid::dead(width, height).geometry().len() == 0,
{
    let grid = Grid::dead(width, height);
    let alive = |cell: Cell| cell == Cell::Alive;
    assert(live_among(grid.cells) == 0) by {
        grid.cells.lemma_all_neg_filter_empty(alive);
    }
    law_geometry_count(grid);
}

} // verus!
