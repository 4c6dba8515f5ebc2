//! A hexagon island map: the grid of tiles, how an island is laid into it, the
//! images and text that are made from it, and what the player's input does.

pub mod hex;
pub mod input;
pub mod laws;
pub mod rendering;
pub mod terrain_generator;
