//! Conway's Game of Life on a board of fixed size with hard edges.
//!
//! A game starts from seeds, lists of cells that are alive at first. A grid
//! built from them is advanced one generation at a time, and can be observed
//! in between: its cells, the number of steps taken, whether the game can go
//! on, and a text that shows all of this.
//!
//! The rule of the game is stated once, over sequences of rows of cells, and
//! the contracts of the grid say that the grid follows it. The laws of the
//! game are proved from that statement.

pub mod board;
pub mod glider;
pub mod laws;
pub mod life;
pub mod render;
pub mod seed;
