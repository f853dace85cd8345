//! Exact tiling of a rectangular board with tetromino pieces by backtracking
//! search.
//!
//! [`piece`] holds the catalog of the seven families and their orientations,
//! [`board`] the grid with its stack of placed pieces, [`inventory`] the
//! pieces still to be placed, and [`solver`] the search. [`grid`] and
//! [`tiling`] say what a well-formed board and a solution are, [`cover`]
//! why the search misses no tiling, and [`render`] draws a board as text.

pub mod board;
pub mod cover;
pub mod grid;
pub mod inventory;
pub mod piece;
pub mod render;
pub mod solver;
pub mod tiling;

pub use inventory::TetrisSet;
pub use solver::solve;
