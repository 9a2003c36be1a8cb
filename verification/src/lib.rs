//! Conway's Game of Life on a fixed-size rectangular grid with hard edges.
//!
//! [`Grid`] stores the cells and answers neighbour queries; [`ConwaySim`]
//! owns a grid and a generation counter and advances both one generation at
//! a time. Every executable function is specified against [`Board`], the
//! mathematical model of a grid.

pub mod board;
pub mod cell;
pub mod error;
pub mod grid;
pub mod sim;
pub mod theorems;

pub use board::Board;
pub use cell::Cell;
pub use error::GridError;
pub use grid::Grid;
pub use sim::{ConwaySim, SimState};
