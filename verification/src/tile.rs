use crate::engine::{clone_anchor, default_anchor, default_color, default_texture};
use bevy::asset::HandleId;
use bevy::math::Vec2;
use bevy::prelude::Color;
use bevy::sprite::Anchor;
use vstd::prelude::*;

verus! {

/// What a tilemap can hold in a cell: a value with a default that can be
/// cloned and shared between threads.
pub trait Tileable: 'static + Send + Sync + Default + Clone {

}

/// A cell that may be empty. An empty cell draws nothing.
impl<T> Tileable for Option<T> where T: Tileable {

}

impl Tileable for TextureAtlasTile {

}

impl Tileable for SpriteTile {

}

/// A tile drawn from one region of a texture atlas.
#[derive(Debug)]
pub struct TextureAtlasTile {
    /// Index of the region in the texture atlas.
    pub index: usize,
    /// The tile's color tint.
    pub color: Color,
    /// Flip the sprite along the `X` axis.
    pub flip_x: bool,
    /// Flip the sprite along the `Y` axis.
    pub flip_y: bool,
    /// The size of the tile in the grid.
    pub custom_size: Option<Vec2>,
    /// Anchor point of the sprite in the world.
    pub anchor: Anchor,
}

impl TextureAtlasTile {
    /// The tile of region `index`, otherwise as the default tile.
    pub fn new(index: usize) -> (tile: Self)
        ensures
            tile.index == index,
            !tile.flip_x,
            !tile.flip_y,
            tile.custom_size is None,
            tile.anchor == Anchor::Center,
    {
        TextureAtlasTile {
            index,
            color: default_color(),
            flip_x: false,
            flip_y: false,
            custom_size: None,
            anchor: default_anchor(),
        }
    }
}

impl Default for TextureAtlasTile {
    /// The tile of region 0, with the engine's default tint, not flipped,
    /// at its natural size, anchored at its centre.
    fn default() -> (tile: Self)
        ensures
            tile.index == 0,
            !tile.flip_x,
            !tile.flip_y,
            tile.custom_size is None,
            tile.anchor == Anchor::Center,
    {
        TextureAtlasTile::new(0)
    }
}

impl Clone for TextureAtlasTile {
    fn clone(&self) -> (tile: Self)
        ensures
            tile == *self,
    {
        TextureAtlasTile {
            index: self.index,
            color: self.color,
            flip_x: self.flip_x,
            flip_y: self.flip_y,
            custom_size: self.custom_size,
            anchor: clone_anchor(&self.anchor),
        }
    }
}

/// A tile drawn from a texture of its own. The tile names its texture and
/// does not hold it: whoever owns the tilemap keeps the texture loaded.
#[derive(Debug)]
pub struct SpriteTile {
    /// Identity of the tile's texture.
    pub texture: HandleId,
    /// The tile's color tint.
    pub color: Color,
    /// Flip the sprite along the `X` axis.
    pub flip_x: bool,
    /// Flip the sprite along the `Y` axis.
    pub flip_y: bool,
    /// The size of the tile in the grid.
    pub custom_size: Option<Vec2>,
    /// Anchor point of the sprite in the world.
    pub anchor: Anchor,
}

impl SpriteTile {
    /// The tile of `texture`, otherwise as the default tile.
    pub fn new(texture: HandleId) -> (tile: Self)
        ensures
            tile.texture == texture,
            !tile.flip_x,
            !tile.flip_y,
            tile.custom_size is None,
            tile.anchor == Anchor::Center,
    {
        SpriteTile {
            texture,
            color: default_color(),
            flip_x: false,
            flip_y: false,
            custom_size: None,
            anchor: default_anchor(),
        }
    }
}

impl Default for SpriteTile {
    /// The tile of the engine's default texture, with the engine's default
    /// tint, not flipped, at its natural size, anchored at its centre.
    fn default() -> (tile: Self)
        ensures
            !tile.flip_x,
            !tile.flip_y,
            tile.custom_size is None,
            tile.anchor == Anchor::Center,
    {
        SpriteTile::new(default_texture())
    }
}

impl Clone for SpriteTile {
    fn clone(&self) -> (tile: Self)
        ensures
            tile == *self,
    {
        SpriteTile {
            texture: self.texture,
            color: self.color,
            flip_x: self.flip_x,
            flip_y: self.flip_y,
            custom_size: self.custom_size,
            anchor: clone_anchor(&self.anchor),
        }
    }
}

} // verus!
