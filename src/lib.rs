//! Conway's Game of Life on a fixed-size toroidal board.

pub mod rules;
pub mod torus;
pub mod world;

pub use world::{World, WorldError};
