//! Conway's Game of Life on a fixed-size toroidal grid.
//!
//! A [`Universe`] owns the grid. [`Universe::tick`] advances it by one
//! generation and [`Universe::render`] turns it into text. What these
//! operations compute is stated over [`Grid`], the mathematical model of a
//! universe; the module [`laws`] proves what holds of every grid and of
//! every generation.

pub mod cell;
pub mod grid;
pub mod laws;
pub mod range;
pub mod universe;

pub use cell::Cell;
pub use grid::Grid;
pub use range::range;
pub use universe::Universe;
pub use universe::UniverseError;
