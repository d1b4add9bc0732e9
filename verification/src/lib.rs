//! Conway's Game of Life on a fixed-size toroidal grid.
//!
//! The grid is a flat, row-major sequence of cells. Each cell carries its
//! (column, row) position and the precomputed linear indices of its eight
//! neighbours on the torus; the generational update applies the classic
//! B3/S23 rule synchronously, writing a fresh generation from a frozen
//! snapshot of the current one. Seeding can come from a random source, from
//! manual painting, or from an image sampled one pixel per cell.

pub mod cell;
pub mod game;
pub mod imaging;
pub mod laws;
pub mod rng;

pub use cell::Cell;
pub use game::Game;
pub use game::GridError;
