//! The core of an Arimaa engine: bitboards, step generation, step
//! execution with trap resolution, turn ends and Zobrist hashing.

pub mod apply;
pub mod board;
pub mod count;
pub mod diagram;
pub mod game;
pub mod laws;
pub mod movegen;
pub mod notation;
pub mod opening;
pub mod piece;
pub mod position;
pub mod rules;
pub mod search;
pub mod small;
pub mod step;
pub mod text;
pub mod zobrist;
