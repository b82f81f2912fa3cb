//! A falling-block puzzle engine: a bit-packed 10x20 board, the seven
//! tetrominoes, placement rules, line clears and scoring, surface analysis
//! and the enumeration of the boards that one incoming piece can lead to.
//!
//! Every function is verified against a mathematical model: a board is a
//! grid of booleans with five counters, a piece is a set of four cells, and
//! a surface pattern is a list of skyline and cell constraints.

pub mod bits;
pub mod board;
pub mod choices;
pub mod col;
pub mod features;
pub mod game;
pub mod generator;
pub mod grid;
pub mod pattern;
pub mod piece;
pub mod placement;
pub mod row;
pub mod surface;
