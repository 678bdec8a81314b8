//! The geometry of the live cells: two triangles for each, in normalized
//! device coordinates.
//!
//! The drawing surface spans two units along each axis, from minus one to
//! one. A coordinate is held as an exact fraction, so that no rounding
//! stands between the grid and what is stated of its geometry.

use crate::cell::Cell;
use crate::grid::Grid;
use crate::universe::Universe;
use vstd::prelude::*;

verus! {

/// One component of a vertex: the fraction `numerator / denominator`.
#[derive(Clone, Copy, Debug, PartialEq, Eq, Structural)]
pub struct Coordinate {
    pub numerator: i64,
    pub denominator: u32,
}

/// How many components one live cell adds to the geometry: two triangles
/// of three vertices of three components.
pub const COMPONENTS_PER_CELL: usize = 18;

/// The three components of the vertex at `(x, y)` in the plane of depth zero.
pub open spec fn vertex(x: Coordinate, y: Coordinate) -> Seq<Coordinate> {
    seq![x, y, Coordinate { numerator: 0, denominator: 1 }]
}

/// How many of `cells` are alive.
pub open spec fn live_among(cells: Seq<Cell>) -> nat {
    cells.filter(|cell: Cell| cell == Cell::Alive).len()
}

impl Grid {
    /// The near edge of the cells of `row`: `row` cells of size `2 / width`
    /// away from minus one.
    pub open spec fn x0(self, row: int) -> Coordinate {
        Coordinate { numerator: (2 * row - self.width) as i64, denominator: self.width as u32 }
    }

    /// The far edge of the cells of `row`: one cell beyond the near edge.
    pub open spec fn x1(self, row: int) -> Coordinate {
        Coordinate {
            numerator: (2 * (row + 1) - self.width) as i64,
            denominator: self.width as u32,
        }
    }

    /// The near edge of the cells of `column`: `column` cells of size
    /// `2 / height` away from minus one.
    pub open spec fn y0(self, column: int) -> Coordinate {
        Coordinate {
            numerator: (2 * column - self.height) as i64,
            denominator: self.height as u32,
        }
    }

    /// The far edge of the cells of `column`: one cell beyond the near edge.
    pub open spec fn y1(self, column: int) -> Coordinate {
        Coordinate {
            numerator: (2 * (column + 1) - self.height) as i64,
            denominator: self.height as u32,
        }
    }

    /// The two triangles that cover the cell at `(row, column)`: bottom
    /// left, bottom right, top left; then top right, top left, bottom right.
    pub open spec fn quad(self, row: int, column: int) -> Seq<Coordinate> {
        vertex(self.x0(row), self.y0(column)) + vertex(self.x1(row), self.y0(column)) + vertex(
            self.x0(row),
            self.y1(column),
        ) + vertex(self.x1(row), self.y1(column)) + vertex(self.x0(row), self.y1(column)) + vertex(
            self.x1(row),
            self.y0(column),
        )
    }

    /// The geometry of the live cells among the first `count` cells, in the
    /// order of the cells.
    pub open spec fn geometry_of(self, count: int) -> Seq<Coordinate>
        decreases count,
    {
        if count <= 0 {
            Seq::empty()
        } else if self.cells[count - 1] == Cell::Alive {
            self.geometry_of(count - 1) + self.quad(
                self.row_of(count - 1),
                self.column_of(count - 1),
            )
        } else {
            self.geometry_of(count - 1)
        }
    }

    /// The geometry of all live cells.
    pub open spec fn geometry(self) -> Seq<Coordinate> {
        self.geometry_of(self.cells.len() as int)
    }

    /// How many cells are alive.
    pub open spec fn live_count(self) -> nat {
        live_among(self.cells)
    }

    /// The geometry of the first `count` cells has eighteen components for
    /// each live cell among them.
    pub proof fn lemma_geometry_of_len(self, count: int)
        requires
            0 <= count <= self.cells.len(),
        ensures
            self.geometry_of(count).len() == COMPONENTS_PER_CELL * live_among(
                self.cells.take(count),
            ),
        decreases count,
    {
        let alive = |cell: Cell| cell == Cell::Alive;
        if count == 0 {
            assert(self.cells.take(0).filter(alive).len() == 0) by {
                self.cells.take(0).lemma_filter_len(alive);
            }
        } else {
            self.lemma_geometry_of_len(count - 1);
            let before = self.cells.take(count - 1);
            assert(self.cells.take(count) =~= before.push(self.cells[count - 1]));
            before.lemma_filter_len_push(alive, self.cells[count - 1]);
            assert(self.quad(self.row_of(count - 1), self.column_of(count - 1)).len() == 18);
        }
    }
}

/// Appends the three components of the vertex at `(x, y)`.
fn push_vertex(geometry: &mut Vec<Coordinate>, x: Coordinate, y: Coordinate)
    ensures
        final(geometry)@ == old(geometry)@ + vertex(x, y),
{
    geometry.push(x);
    geometry.push(y);
    geometry.push(Coordinate { numerator: 0, denominator: 1 });
    assert(geometry@ =~= old(geometry)@ + vertex(x, y));
}

impl Universe {
    /// The vertices of two triangles for each live cell, as one flat list
    /// of components: the cells in the order in which the universe holds
    /// them, and the six vertices of a cell in the order of [`Grid::quad`].
    pub fn render_geometry(&self) -> (geometry: Vec<Coordinate>)
        requires
            self.wf(),
        ensures
            geometry@ == self@.geometry(),
            geometry@.len() == COMPONENTS_PER_CELL * self@.live_count(),
    {
        let cells = self.get_cells();
        let width = self.width();
        let height = self.height();
        let mut geometry: Vec<Coordinate> = Vec::new();
        let mut index: usize = 0;
        while index < cells.len()
            invariant
                self.wf(),
                cells@ == self@.cells,
                width == self@.width,
                height == self@.height,
                index <= cells.len(),
                geometry@ == self@.geometry_of(index as int),
            decreases cells.len() - index,
        {
            if cells[index] == Cell::Alive {
                proof {
                    self@.lemma_coordinate(index as int);
                }
                let row = (index / (width as usize)) as u32;
                let column = (index % (width as usize)) as u32;
                let x0 = Coordinate {
                    numerator: 2 * (row as i64) - (width as i64),
                    denominator: width,
                };
                let x1 = Coordinate {
                    numerator: 2 * (row as i64 + 1) - (width as i64),
                    denominator: width,
                };
                let y0 = Coordinate {
                    numerator: 2 * (column as i64) - (height as i64),
                    denominator: height,
                };
                let y1 = Coordinate {
                    numerator: 2 * (column as i64 + 1) - (height as i64),
                    denominator: height,
                };
                let ghost before = geometry@;
                push_vertex(&mut geometry, x0, y0);
                push_vertex(&mut geometry, x1, y0);
                push_vertex(&mut geometry, x0, y1);
                push_vertex(&mut geometry, x1, y1);
                push_vertex(&mut geometry, x0, y1);
                push_vertex(&mut geometry, x1, y0);
                assert(geometry@ =~= before + self@.quad(row as int, column as int));
            }
            index += 1;
        }
        proof {
            self@.lemma_geometry_of_len(cells@.len() as int);
            assert(cells@.take(cells@.len() as int) =~= cells@);
        }
        geometry
    }
}

} // verus!
