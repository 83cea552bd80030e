//! Conway's Game of Life: boards, the standard transition rule and a
//! catalog of seed patterns, with their behaviour stated and proved.

pub mod board;
pub mod display;
pub mod direction;
pub mod engine;
pub mod pattern;
mod random;
