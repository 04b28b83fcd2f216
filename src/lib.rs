//! A small 2D game framework: integer geometry, premultiplied-alpha images
//! with a clipped compositing blit, sprite animation cursors, tile grids and
//! a per-step collision resolver for actors moving through solid tiles.

pub mod types;
pub mod blit;
pub mod tiles;
pub mod collision;
pub mod animations;
pub mod sprite;
pub mod loader;
pub mod shapes;
pub mod fb2d;
pub mod game;
pub mod invaders;
pub mod input;
