//! Conway's Game of Life on a fixed-size torus.
//!
//! A [`Universe`] owns a rectangular grid of [`Cell`]s stored row by row. Its
//! last row is adjacent to its first and its last column to its first, so every
//! cell has a full set of neighbours. [`Universe::tick`] replaces the grid by
//! its next generation; the contract of each operation is stated over
//! [`Grid`], the mathematical model of a universe.

pub mod cell;
pub mod grid;
pub mod patterns;
pub mod universe;

pub use cell::Cell;
pub use grid::Grid;
pub use universe::Universe;
