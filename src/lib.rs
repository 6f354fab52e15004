//! Conway's Game of Life on a fixed-size toroidal grid.

mod bits;
pub mod entropy;
pub mod laws;
pub mod rules;
mod universe;

pub use universe::Universe;
