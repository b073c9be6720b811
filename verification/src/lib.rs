//! A procedural dungeon layout generator.
//!
//! The library lays out non-overlapping rectangular rooms on a fixed-size
//! grid, connects consecutive room centers with L-shaped tunnels of path
//! tiles, and then classifies boundary cells into wall, corner and door
//! tiles using fixed-size neighborhood windows.

pub mod classify;
pub mod layout;
pub mod matrix;
mod rng;
pub mod room;
pub mod tile;
