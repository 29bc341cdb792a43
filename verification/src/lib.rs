//! A retained-mode frame buffer for full-screen terminal output.
//!
//! A [`Terminal`] is a fixed-size grid of [`Cell`]s. Callers paint cells in
//! any order and then serialise the whole frame, colour directives included,
//! into one string that can be written to the terminal in a single call.

pub mod cell;
pub mod grid;
pub mod render;
pub mod terminal;
pub mod theorems;

pub use cell::{Cell, Color};
pub use grid::Grid;
pub use terminal::Terminal;
