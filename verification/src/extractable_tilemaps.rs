use crate::engine::{anchor_as_vec, anchor_vector};
use crate::extraction::{
    atlas_extraction, extraction, lemma_atlas_extraction_count, lemma_extraction_count,
    AtlasRegions, ExtractableAtlasTilemap, ExtractableTilemap, GridPlacement,
};
use crate::geometry::TilemapView;
use crate::indexing::IndexableGrid;
use crate::tile::{SpriteTile, TextureAtlasTile};
use crate::tilemap::Tilemap;
use bevy::prelude::{Entity, GlobalTransform};
use bevy::sprite::{Anchor, ExtractedSprite};
use vstd::prelude::*;

verus! {

/// The sprite that draws an atlas tile for `entity` at `transform`: the
/// tile's region of the atlas's image, with the tile's tint, flips, size
/// and anchor.
pub open spec fn atlas_sprite(
    tile: TextureAtlasTile,
    entity: Entity,
    transform: GlobalTransform,
    texture_atlas: AtlasRegions<'_>,
) -> ExtractedSprite {
    ExtractedSprite {
        entity,
        transform,
        color: tile.color,
        rect: Some(texture_atlas.regions@[tile.index as int]),
        custom_size: tile.custom_size,
        image_handle_id: texture_atlas.image,
        flip_x: tile.flip_x,
        flip_y: tile.flip_y,
        anchor: anchor_vector(tile.anchor),
    }
}

/// The sprite that draws a tile with a texture of its own for `entity` at
/// `transform`: the whole of the tile's texture, with the tile's tint,
/// flips, size and anchor.
pub open spec fn texture_sprite(tile: SpriteTile, entity: Entity, transform: GlobalTransform)
    -> ExtractedSprite {
    ExtractedSprite {
        entity,
        transform,
        color: tile.color,
        rect: None,
        custom_size: tile.custom_size,
        image_handle_id: tile.texture,
        flip_x: tile.flip_x,
        flip_y: tile.flip_y,
        anchor: anchor_vector(tile.anchor),
    }
}

fn extract_atlas_tile(
    tile: &TextureAtlasTile,
    entity: Entity,
    transform: GlobalTransform,
    texture_atlas: &AtlasRegions<'_>,
) -> (sprite: ExtractedSprite)
    requires
        tile.index < texture_atlas.regions@.len(),
    ensures
        sprite == atlas_sprite(*tile, entity, transform, *texture_atlas),
        tile.anchor matches Anchor::Custom(point) ==> sprite.anchor == point,
{
    ExtractedSprite {
        entity,
        transform,
        color: tile.color,
        rect: Some(texture_atlas.regions[tile.index]),
        custom_size: tile.custom_size,
        image_handle_id: texture_atlas.image,
        flip_x: tile.flip_x,
        flip_y: tile.flip_y,
        anchor: anchor_as_vec(&tile.anchor),
    }
}

fn extract_texture_tile(tile: &SpriteTile, entity: Entity, transform: GlobalTransform) -> (sprite:
    ExtractedSprite)
    ensures
        sprite == texture_sprite(*tile, entity, transform),
        tile.anchor matches Anchor::Custom(point) ==> sprite.anchor == point,
{
    ExtractedSprite {
        entity,
        transform,
        color: tile.color,
        rect: None,
        custom_size: tile.custom_size,
        image_handle_id: tile.texture,
        flip_x: tile.flip_x,
        flip_y: tile.flip_y,
        anchor: anchor_as_vec(&tile.anchor),
    }
}

impl ExtractableAtlasTilemap for Tilemap<TextureAtlasTile> {
    open spec fn drawable(&self, texture_atlas: AtlasRegions<'_>, index: usize) -> bool {
        self@[index as int].index < texture_atlas.regions@.len()
    }

    open spec fn extracted(
        &self,
        entity: Entity,
        transform: GlobalTransform,
        texture_atlas: AtlasRegions<'_>,
        index: usize,
    ) -> Option<ExtractedSprite> {
        Some(atlas_sprite(self@[index as int], entity, transform, texture_atlas))
    }

    /// The sprite of the tile at `index`. A custom anchor of the tile is
    /// the sprite's anchor.
    fn extract_tile(
        &self,
        entity: Entity,
        transform: GlobalTransform,
        texture_atlas: &AtlasRegions<'_>,
        index: usize,
    ) -> (sprite: Option<ExtractedSprite>)
        ensures
            self@[index as int].anchor matches Anchor::Custom(point) ==> sprite matches Some(drawn)
                && drawn.anchor == point,
    {
        proof {
            use_type_invariant(self);
            self.lemma_cell_count();
        }
        Some(extract_atlas_tile(&self[index], entity, transform, texture_atlas))
    }

    fn tile_drawable(&self, texture_atlas: &AtlasRegions<'_>, index: usize) -> (drawable: bool) {
        proof {
            use_type_invariant(self);
            self.lemma_cell_count();
        }
        self[index].index < texture_atlas.regions.len()
    }
}

impl ExtractableAtlasTilemap for Tilemap<Option<TextureAtlasTile>> {
    open spec fn drawable(&self, texture_atlas: AtlasRegions<'_>, index: usize) -> bool {
        self@[index as int] matches Some(tile) ==> tile.index < texture_atlas.regions@.len()
    }

    open spec fn extracted(
        &self,
        entity: Entity,
        transform: GlobalTransform,
        texture_atlas: AtlasRegions<'_>,
        index: usize,
    ) -> Option<ExtractedSprite> {
        match self@[index as int] {
            Some(tile) => Some(atlas_sprite(tile, entity, transform, texture_atlas)),
            None => None,
        }
    }

    /// The sprite of the tile at `index`, if the cell holds one. A custom
    /// anchor of the tile is the sprite's anchor.
    fn extract_tile(
        &self,
        entity: Entity,
        transform: GlobalTransform,
        texture_atlas: &AtlasRegions<'_>,
        index: usize,
    ) -> (sprite: Option<ExtractedSprite>)
        ensures
            self@[index as int] matches Some(tile) ==> (tile.anchor matches Anchor::Custom(point)
                ==> sprite matches Some(drawn) && drawn.anchor == point),
    {
        proof {
            use_type_invariant(self);
            self.lemma_cell_count();
        }
        match &self[index] {
            Some(tile) => Some(extract_atlas_tile(tile, entity, transform, texture_atlas)),
            None => None,
        }
    }

    fn tile_drawable(&self, texture_atlas: &AtlasRegions<'_>, index: usize) -> (drawable: bool) {
        proof {
            use_type_invariant(self);
            self.lemma_cell_count();
        }
        match &self[index] {
            Some(tile) => tile.index < texture_atlas.regions.len(),
            None => true,
        }
    }
}

impl ExtractableTilemap for Tilemap<SpriteTile> {
    open spec fn extracted(&self, entity: Entity, transform: GlobalTransform, index: usize)
        -> Option<ExtractedSprite> {
        Some(texture_sprite(self@[index as int], entity, transform))
    }

    /// The sprite of the tile at `index`. A custom anchor of the tile is
    /// the sprite's anchor.
    fn extract_tile(&self, entity: Entity, transform: GlobalTransform, index: usize) -> (sprite:
        Option<ExtractedSprite>)
        ensures
            self@[index as int].anchor matches Anchor::Custom(point) ==> sprite matches Some(drawn)
                && drawn.anchor == point,
    {
        proof {
            use_type_invariant(self);
            self.lemma_cell_count();
        }
        Some(extract_texture_tile(&self[index], entity, transform))
    }
}

impl ExtractableTilemap for Tilemap<Option<SpriteTile>> {
    open spec fn extracted(&self, entity: Entity, transform: GlobalTransform, index: usize)
        -> Option<ExtractedSprite> {
        match self@[index as int] {
            Some(tile) => Some(texture_sprite(tile, entity, transform)),
            None => None,
        }
    }

    /// The sprite of the tile at `index`, if the cell holds one. A custom
    /// anchor of the tile is the sprite's anchor.
    fn extract_tile(&self, entity: Entity, transform: GlobalTransform, index: usize) -> (sprite:
        Option<ExtractedSprite>)
        ensures
            self@[index as int] matches Some(tile) ==> (tile.anchor matches Anchor::Custom(point)
                ==> sprite matches Some(drawn) && drawn.anchor == point),
    {
        proof {
            use_type_invariant(self);
            self.lemma_cell_count();
        }
        match &self[index] {
            Some(tile) => Some(extract_texture_tile(tile, entity, transform)),
            None => None,
        }
    }
}

/// A visible tilemap whose every cell holds a tile adds exactly one sprite
/// for each cell of its clipped view: the clipped width times the clipped
/// height.
pub proof fn lemma_full_tilemap_extraction_count(
    tilemap: &Tilemap<SpriteTile>,
    entity: Entity,
    view: TilemapView,
    placement: GridPlacement,
)
    ensures
        ({
            let (x, y, w, h) = view.clipped(tilemap.grid_width(), tilemap.grid_height());
            extraction(tilemap, entity, view, placement, true).len() == w * h
        }),
{
    lemma_extraction_count(tilemap, entity, view, placement);
}

/// A visible atlas tilemap whose every cell holds a tile adds exactly one
/// sprite for each cell of its clipped view: the clipped width times the
/// clipped height.
pub proof fn lemma_full_atlas_tilemap_extraction_count(
    tilemap: &Tilemap<TextureAtlasTile>,
    entity: Entity,
    view: TilemapView,
    placement: GridPlacement,
    texture_atlas: AtlasRegions<'_>,
)
    ensures
        ({
            let (x, y, w, h) = view.clipped(tilemap.grid_width(), tilemap.grid_height());
            atlas_extraction(tilemap, entity, view, placement, Some(texture_atlas), true).len()
                == w * h
        }),
{
    lemma_atlas_extraction_count(tilemap, entity, view, placement, texture_atlas);
}

/// In a tilemap of optional tiles, a cell draws a sprite exactly where it
/// holds a tile: emptying a cell takes its sprite away and leaves every
/// other cell's as it was, and filling it again brings the sprite of the
/// new tile.
pub proof fn lemma_empty_cell_draws_nothing(
    before: Tilemap<Option<SpriteTile>>,
    after: Tilemap<Option<SpriteTile>>,
    index: usize,
    content: Option<SpriteTile>,
    entity: Entity,
    transform: GlobalTransform,
)
    requires
        index < before@.len(),
        after@ == before@.update(index as int, content),
    ensures
        before.extracted(entity, transform, index) is Some <==> before@[index as int] is Some,
        content is None ==> after.extracted(entity, transform, index) is None,
        content matches Some(tile) ==> after.extracted(entity, transform, index) == Some(
            texture_sprite(tile, entity, transform),
        ),
        forall|other: usize|
            other < before@.len() && other != index ==> #[trigger] after.extracted(
                entity,
                transform,
                other,
            ) == before.extracted(entity, transform, other),
{
}

/// In an atlas tilemap of optional tiles, a cell draws a sprite exactly
/// where it holds a tile: emptying a cell takes its sprite away and leaves
/// every other cell's as it was, and filling it again brings the sprite of
/// the new tile.
pub proof fn lemma_empty_atlas_cell_draws_nothing(
    before: Tilemap<Option<TextureAtlasTile>>,
    after: Tilemap<Option<TextureAtlasTile>>,
    index: usize,
    content: Option<TextureAtlasTile>,
    entity: Entity,
    transform: GlobalTransform,
    texture_atlas: AtlasRegions<'_>,
)
    requires
        index < before@.len(),
        after@ == before@.update(index as int, content),
    ensures
        before.extracted(entity, transform, texture_atlas, index) is Some <==> before@[index as int]
             is Some,
        content is None ==> after.extracted(entity, transform, texture_atlas, index) is None,
        content matches Some(tile) ==> after.extracted(entity, transform, texture_atlas, index)
            == Some(atlas_sprite(tile, entity, transform, texture_atlas)),
        forall|other: usize|
            other < before@.len() && other != index ==> #[trigger] after.extracted(
                entity,
                transform,
                texture_atlas,
                other,
            ) == before.extracted(entity, transform, texture_atlas, other),
{
}

} // verus!
