//! Conway's Game of Life on a bounded rectangular grid.
//!
//! The grid holds one cell per coordinate of `[0, width) x [0, height)` in
//! row-major order. A generation step applies the classic Life rule to a
//! snapshot of the whole grid: a cell with three live neighbors is alive, a
//! cell with two keeps its state, and every other cell is dead. The grid is
//! bounded, not toroidal: coordinates outside the rectangle never count as
//! live neighbors.

pub mod args;
pub mod grid;
pub mod sim;
