//! Conway's Game of Life on a bounded rectangular board with hard edges.
//!
//! [`grid::Grid`] is the mathematical model of a board; [`board::Board`] is the
//! executable board whose operations are proved against that model;
//! [`laws`] holds what follows for every board; [`driver`] decides what a
//! display loop does with each input.

pub mod board;
pub mod driver;
pub mod error;
pub mod grid;
pub mod laws;

pub use board::{Board, Cell};
pub use driver::{drive, Action, Polled};
pub use error::BoardError;
pub use grid::{Grid, DEAD_GLYPH, LIVE_GLYPH};
