//! Conway's Game of Life on a fixed-capacity grid with a one-cell border.

pub mod board;
pub mod laws;
pub mod layout;
pub mod plane;
pub mod render;
pub mod rule;
pub mod seed;

pub use board::{Board, Rgb};
pub use plane::Plane;
pub use render::{Patch, Pixel};
pub use rule::Around;
