//! Conway's Game of Life on a fixed 100 by 100 torus.
//!
//! The board is a square of cells, each alive or dead, whose edges are glued
//! to the opposite side. One generation applies the birth and survival rule
//! to every cell at once.

pub mod display;
pub mod game;
pub mod laws;
pub mod random;
pub mod torus;
