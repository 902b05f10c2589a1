//! The names that most users of tilemaps need.

pub use crate::geometry::TilemapView;
pub use crate::indexing::IndexableGrid;
pub use crate::tile::SpriteTile;
pub use crate::tile::TextureAtlasTile;
pub use crate::tile::Tileable;
pub use crate::tilemap::Tilemap;
