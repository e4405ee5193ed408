//! Move generation for the pieces of a Xiangqi board: where one piece may go
//! from a given occupancy of the nine by ten grid, and the commit of a chosen
//! displacement.
pub mod board;
pub mod chess;
pub mod position;
pub mod vec2d;
