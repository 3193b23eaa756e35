//! Conway's Game of Life on an unbounded grid, with the stepping rule proved
//! against a mathematical model of the plane.

pub mod board;
pub mod cell;
pub mod coord;
pub mod frame;
pub mod life;
pub mod patterns;
pub mod viewport;
