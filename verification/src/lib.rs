//! Tilemaps for 2D sprites: a grid of tiles that is drawn cell by cell.
//!
//! A [`tilemap::Tilemap`] stores one tile for each cell of a grid, row by
//! row. Each frame, [`extraction::extract_tilemap`] and
//! [`extraction::extract_atlas_tilemap`] walk the cells that a
//! [`geometry::TilemapView`] selects and append one sprite for each cell
//! that holds a tile. Where the cells stand in the world is given by an
//! [`extraction::GridPlacement`]; the walk reaches each cell's transform
//! from the one before it by additions alone.
//!
//! The functions of this crate are verified against their contracts. The
//! module [`engine`] lists what is taken on trust of the engine; beside it,
//! [`tilemap`] takes on trust what borrowing a vector as a slice does.

pub mod engine;
pub mod extractable_tilemaps;
pub mod extraction;
pub mod geometry;
pub mod indexing;
pub mod prelude;
pub mod tile;
pub mod tilemap;
