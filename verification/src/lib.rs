//! Conway's Game of Life: a rectangular grid of binary cells together with
//! the one-step transition function and the mutators a user interface needs
//! (toggle a cell, clear the board, randomize it).

pub mod engine;
pub mod grid;
pub mod laws;
pub mod random;

pub use crate::engine::future_generation;
pub use crate::grid::Grid;
