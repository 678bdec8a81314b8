//! Conway's Game of Life on a torus: the grid, the neighbour rule, the
//! generational update and the geometry of the live cells, each with a
//! machine-checked contract.

pub mod cell;
pub mod error;
pub mod geometry;
pub mod grid;
pub mod laws;
pub mod random;
pub mod text;
pub mod universe;

pub use cell::Cell;
pub use error::UniverseError;
pub use geometry::Coordinate;
pub use grid::Grid;
pub use universe::Universe;
