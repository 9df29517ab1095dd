//! Conway's Game of Life on a fixed grid whose edges clamp neighbour lookups,
//! with a small controller that turns frame ticks and input events into
//! board updates.
//!
//! Every operation that takes cell coordinates pins them to the board: a
//! column past the right edge reads as the last column, a row past the bottom
//! edge as the last row. The neighbour count pins its eight lookups the same
//! way, so cells on the edge may count a cell twice.

pub mod grid;
pub mod controller;

pub use grid::{Board, clamp_down, clamp_up, pin_index, BOARD_HEIGHT, BOARD_WIDTH};
pub use controller::{cell_rect, window_size, Button, Game, Key, CELL_SIZE, GEN_INTERVAL_MS};
