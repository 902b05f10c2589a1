use bevy::asset::HandleId;
use bevy::math::{Rect, Vec2, Vec3, Vec3A};
use bevy::prelude::{Color, Entity, GlobalTransform, Handle, Image};
use bevy::sprite::{Anchor, ExtractedSprite};
use bevy::utils::Uuid;
use bevy_sprite_tilemap::extraction::{
    extract_atlas_tilemap, extract_tilemap, iter_grid_coords, iter_view_coords,
    try_extract_atlas_tilemap,
    view_is_drawable, AtlasRegions, ExtractableAtlasTilemap, ExtractableTilemap, GridPlacement,
};
use bevy_sprite_tilemap::geometry::TilemapView;
use bevy_sprite_tilemap::indexing::IndexableGrid;
use bevy_sprite_tilemap::tile::{SpriteTile, TextureAtlasTile};
use bevy_sprite_tilemap::tilemap::Tilemap;

fn texture(id: u64) -> HandleId {
    HandleId::new(Uuid::from_u128(0x1234_5678), id)
}

fn placement(view_width: usize) -> GridPlacement {
    GridPlacement {
        origin: GlobalTransform::from_xyz(100.0, 200.0, 3.0),
        step_row: Vec3A::new(16.0, 0.0, 0.0),
        next_row_step: Vec3A::new(-16.0 * view_width as f32, 8.0, 0.0),
    }
}

fn cells(
    grid_width: usize,
    grid_height: usize,
    view: &TilemapView,
    placement: GridPlacement,
) -> Vec<(usize, GlobalTransform)> {
    let mut coords = iter_grid_coords(grid_width, grid_height, view, placement);
    let mut cells = Vec::new();
    let mut left = coords.remaining();
    while let Some(cell) = coords.next() {
        left -= 1;
        assert_eq!(coords.remaining(), left);
        cells.push(cell);
    }
    assert_eq!(left, 0);
    assert!(coords.next().is_none());
    assert!(coords.next().is_none());
    cells
}

fn indices(grid_width: usize, grid_height: usize, view: &TilemapView) -> Vec<usize> {
    cells(grid_width, grid_height, view, placement(1))
        .into_iter()
        .map(|(index, _)| index)
        .collect()
}

fn regions(count: usize) -> Vec<Rect> {
    (0..count)
        .map(|i| Rect::new(16.0 * i as f32, 0.0, 16.0 * i as f32 + 16.0, 16.0))
        .collect()
}

#[test]
fn walk_over_the_whole_grid_is_row_major() {
    assert_eq!(indices(3, 2, &TilemapView::All), vec![0, 1, 2, 3, 4, 5]);
    assert_eq!(indices(1, 3, &TilemapView::All), vec![0, 1, 2]);
    assert_eq!(indices(3, 1, &TilemapView::All), vec![0, 1, 2]);
}

#[test]
fn walk_over_a_section_skips_the_rest_of_each_row() {
    let view = TilemapView::Section { x: 1, y: 1, width: 2, height: 2 };
    assert_eq!(indices(4, 4, &view), vec![5, 6, 9, 10]);
    let view = TilemapView::Section { x: 1, y: 1, width: 3, height: 3 };
    assert_eq!(indices(4, 4, &view), vec![5, 6, 7, 9, 10, 11, 13, 14, 15]);
    let view = TilemapView::Section { x: 3, y: 0, width: 1, height: 4 };
    assert_eq!(indices(4, 4, &view), vec![3, 7, 11, 15]);
}

#[test]
fn walk_over_a_section_that_reaches_past_the_grid() {
    let view = TilemapView::Section { x: 2, y: 3, width: 10, height: 10 };
    assert_eq!(indices(4, 5, &view), vec![14, 15, 18, 19]);
    let view = TilemapView::Section { x: 3, y: 4, width: 10, height: 10 };
    assert_eq!(indices(4, 5, &view), vec![19]);
}

#[test]
fn walk_over_a_section_outside_the_grid_is_empty() {
    let view = TilemapView::Section { x: 4, y: 0, width: 2, height: 2 };
    assert!(indices(4, 4, &view).is_empty());
    let view = TilemapView::Section { x: 0, y: 4, width: 2, height: 2 };
    assert!(indices(4, 4, &view).is_empty());
    let view = TilemapView::Section { x: 100, y: usize::MAX, width: usize::MAX, height: usize::MAX };
    assert!(indices(15, 20, &view).is_empty());
    let view = TilemapView::Section { x: 1, y: 1, width: 0, height: 3 };
    assert!(indices(4, 4, &view).is_empty());
    assert!(indices(0, 4, &TilemapView::All).is_empty());
    assert!(indices(4, 0, &TilemapView::All).is_empty());
}

#[test]
fn walk_has_one_cell_for_each_cell_of_the_clipped_view() {
    for (view, count) in [
        (TilemapView::All, 20),
        (TilemapView::Section { x: 1, y: 1, width: 2, height: 3 }, 6),
        (TilemapView::Section { x: 3, y: 2, width: 9, height: 9 }, 4),
        (TilemapView::Section { x: 5, y: 0, width: 1, height: 1 }, 0),
        (TilemapView::Section { x: 0, y: 4, width: 1, height: 1 }, 0),
        (TilemapView::Section { x: 0, y: 0, width: 5, height: 0 }, 0),
    ] {
        let coords = iter_grid_coords(5, 4, &view, placement(1));
        let [_, _, w, h] = view.clip([5, 4]);
        assert_eq!(coords.remaining(), w * h);
        assert_eq!(coords.remaining(), count);
        let grid = Tilemap::from_elem(5, 4, TextureAtlasTile::new(0));
        assert_eq!(iter_view_coords(&grid, &view, placement(1)).remaining(), count);
    }
}

#[test]
fn walk_steps_the_transform_by_additions() {
    let view = TilemapView::Section { x: 1, y: 0, width: 2, height: 3 };
    let walked = cells(4, 3, &view, placement(2));
    let at: Vec<(usize, Vec3)> = walked
        .iter()
        .map(|(index, transform)| (*index, transform.translation()))
        .collect();
    assert_eq!(
        at,
        vec![
            (1, Vec3::new(100.0, 200.0, 3.0)),
            (2, Vec3::new(116.0, 200.0, 3.0)),
            (5, Vec3::new(100.0, 208.0, 3.0)),
            (6, Vec3::new(116.0, 208.0, 3.0)),
            (9, Vec3::new(100.0, 216.0, 3.0)),
            (10, Vec3::new(116.0, 216.0, 3.0)),
        ]
    );
}

#[test]
fn walk_keeps_the_linear_part_of_the_transform() {
    let origin = GlobalTransform::from(
        bevy::prelude::Transform::from_xyz(1.0, 2.0, 3.0).with_scale(Vec3::new(2.0, 3.0, 1.0)),
    );
    let placement = GridPlacement {
        origin,
        step_row: Vec3A::new(0.5, 0.25, 0.0),
        next_row_step: Vec3A::new(-1.0, 1.0, 0.0),
    };
    let walked = cells(2, 2, &TilemapView::All, placement);
    assert_eq!(walked.len(), 4);
    assert_eq!(walked[0].1, origin);
    for (_, transform) in &walked {
        assert_eq!(transform.affine().matrix3, origin.affine().matrix3);
    }
    assert_eq!(walked[1].1.translation(), Vec3::new(1.5, 2.25, 3.0));
    assert_eq!(walked[2].1.translation(), Vec3::new(1.0, 3.5, 3.0));
    assert_eq!(walked[3].1.translation(), Vec3::new(1.5, 3.75, 3.0));
}

#[test]
fn placement_does_not_change_the_visited_indices() {
    let view = TilemapView::Section { x: 1, y: 2, width: 3, height: 2 };
    let forward = placement(3);
    let reversed = GridPlacement {
        origin: GlobalTransform::from_xyz(-7.0, 9.0, 0.0),
        step_row: Vec3A::new(-16.0, 0.0, 0.0),
        next_row_step: Vec3A::new(48.0, -16.0, 0.0),
    };
    let first: Vec<usize> = cells(5, 5, &view, forward).into_iter().map(|c| c.0).collect();
    let second: Vec<usize> = cells(5, 5, &view, reversed).into_iter().map(|c| c.0).collect();
    assert_eq!(first, vec![11, 12, 13, 16, 17, 18]);
    assert_eq!(first, second);
    let there = cells(5, 5, &view, reversed);
    assert_eq!(there[1].1.translation(), Vec3::new(-23.0, 9.0, 0.0));
    assert_eq!(there[3].1.translation(), Vec3::new(-7.0, -7.0, 0.0));
}

fn sprite_tile(id: u64) -> SpriteTile {
    SpriteTile {
        texture: texture(id),
        color: Color::RED,
        flip_x: id % 2 == 1,
        flip_y: id % 3 == 1,
        custom_size: Some(Vec2::new(id as f32, 2.0)),
        anchor: Anchor::TopLeft,
    }
}

#[test]
fn sprite_tile_becomes_a_sprite_without_rect() {
    let tilemap = Tilemap::from_fn(2, 2, |x, y| sprite_tile((2 * y + x) as u64));
    let entity = Entity::from_raw(42);
    let transform = GlobalTransform::from_xyz(1.0, 2.0, 3.0);
    let sprite = tilemap.extract_tile(entity, transform, 3).unwrap();
    assert_eq!(sprite.entity, entity);
    assert_eq!(sprite.transform, transform);
    assert_eq!(sprite.color, Color::RED);
    assert!(sprite.rect.is_none());
    assert_eq!(sprite.custom_size, Some(Vec2::new(3.0, 2.0)));
    assert_eq!(sprite.image_handle_id, texture(3));
    assert_ne!(sprite.image_handle_id, texture(2));
    assert!(sprite.flip_x);
    assert!(!sprite.flip_y);
    assert_eq!(sprite.anchor, Vec2::new(-0.5, 0.5));
    assert_eq!(sprite.anchor, Anchor::TopLeft.as_vec());
}

#[test]
fn custom_anchor_is_handed_on() {
    let mut tile = sprite_tile(1);
    tile.anchor = Anchor::Custom(Vec2::new(0.25, -0.125));
    let tilemap = Tilemap::from_elem(1, 1, tile);
    let sprite = tilemap
        .extract_tile(Entity::from_raw(1), GlobalTransform::IDENTITY, 0)
        .unwrap();
    assert_eq!(sprite.anchor, Vec2::new(0.25, -0.125));
}

#[test]
fn cloned_tiles_draw_the_same() {
    let tilemap = Tilemap::from_elem(3, 1, sprite_tile(5));
    for index in 0..3 {
        let tile = &tilemap[index];
        assert_eq!(tile.texture, texture(5));
        assert_eq!(tile.color, Color::RED);
        assert!(tile.flip_x);
        assert!(!tile.flip_y);
        assert_eq!(tile.custom_size, Some(Vec2::new(5.0, 2.0)));
        assert!(matches!(tile.anchor, Anchor::TopLeft));
    }
    let mut atlas_tile = TextureAtlasTile::new(4);
    atlas_tile.anchor = Anchor::Custom(Vec2::new(0.5, 0.25));
    atlas_tile.color = Color::BLUE;
    let copy = atlas_tile.clone();
    assert_eq!(copy.index, 4);
    assert_eq!(copy.color, Color::BLUE);
    assert_eq!(copy.anchor.as_vec(), Vec2::new(0.5, 0.25));
    assert!(matches!(copy.anchor, Anchor::Custom(_)));
}

#[test]
fn default_tiles() {
    let tile = TextureAtlasTile::default();
    assert_eq!(tile.index, 0);
    assert_eq!(tile.color, Color::WHITE);
    assert!(!tile.flip_x);
    assert!(!tile.flip_y);
    assert!(tile.custom_size.is_none());
    assert!(matches!(tile.anchor, Anchor::Center));
    let tile = TextureAtlasTile::new(9);
    assert_eq!(tile.index, 9);
    assert_eq!(tile.color, Color::default());
    assert!(matches!(tile.anchor, Anchor::Center));
    let tile = SpriteTile::default();
    assert_eq!(tile.texture, Handle::<Image>::default().id());
    assert_eq!(tile.color, Color::WHITE);
    assert!(!tile.flip_x);
    assert!(!tile.flip_y);
    assert!(tile.custom_size.is_none());
    assert!(matches!(tile.anchor, Anchor::Center));
    let tile = SpriteTile::new(texture(8));
    assert_eq!(tile.texture, texture(8));
    assert_eq!(tile.color, Color::WHITE);
    assert!(matches!(tile.anchor, Anchor::Center));
}

#[test]
fn atlas_tile_becomes_a_sprite_of_its_region() {
    let rects = regions(6);
    let image = HandleId::new(Uuid::from_u128(77), 1);
    let atlas = AtlasRegions { image, regions: &rects };
    let tilemap = Tilemap::from_fn(3, 2, |x, y| {
        let mut tile = TextureAtlasTile::new(5 - (3 * y + x));
        tile.color = Color::GREEN;
        tile.flip_y = true;
        tile.anchor = Anchor::BottomRight;
        tile
    });
    let entity = Entity::from_raw(3);
    let transform = GlobalTransform::from_xyz(4.0, 5.0, 6.0);
    let sprite = tilemap.extract_tile(entity, transform, &atlas, 1).unwrap();
    assert_eq!(sprite.entity, entity);
    assert_eq!(sprite.transform, transform);
    assert_eq!(sprite.color, Color::GREEN);
    assert_eq!(sprite.rect, Some(rects[4]));
    assert!(sprite.custom_size.is_none());
    assert_eq!(sprite.image_handle_id, image);
    assert!(!sprite.flip_x);
    assert!(sprite.flip_y);
    assert_eq!(sprite.anchor, Vec2::new(0.5, -0.5));
    for index in 0..6 {
        assert!(tilemap.tile_drawable(&atlas, index));
    }
    let short = AtlasRegions { image, regions: &rects[..5] };
    assert!(!tilemap.tile_drawable(&short, 0));
    assert!(tilemap.tile_drawable(&short, 1));
}

fn summary(sprites: &[ExtractedSprite]) -> Vec<(HandleId, Vec3)> {
    sprites
        .iter()
        .map(|sprite| (sprite.image_handle_id, sprite.transform.translation()))
        .collect()
}

#[test]
fn extraction_appends_one_sprite_for_each_cell_of_the_view() {
    let tilemap = Tilemap::from_fn(4, 3, |x, y| sprite_tile((4 * y + x) as u64));
    let view = TilemapView::Section { x: 2, y: 1, width: 5, height: 5 };
    let entity = Entity::from_raw(9);
    let mut sprites = Vec::new();
    extract_tilemap(&mut sprites, entity, &tilemap, &view, placement(2), true);
    assert_eq!(sprites.len(), 2 * 2);
    assert_eq!(
        summary(&sprites),
        vec![
            (texture(6), Vec3::new(100.0, 200.0, 3.0)),
            (texture(7), Vec3::new(116.0, 200.0, 3.0)),
            (texture(10), Vec3::new(100.0, 208.0, 3.0)),
            (texture(11), Vec3::new(116.0, 208.0, 3.0)),
        ]
    );
    for sprite in &sprites {
        assert_eq!(sprite.entity, entity);
        assert!(sprite.rect.is_none());
    }
    extract_tilemap(&mut sprites, entity, &tilemap, &TilemapView::All, placement(4), true);
    assert_eq!(sprites.len(), 4 + 12);
    assert_eq!(sprites[0].image_handle_id, texture(6));
    assert_eq!(sprites[4].image_handle_id, texture(0));
    assert_eq!(sprites[15].image_handle_id, texture(11));
    assert_eq!(sprites[15].transform.translation(), Vec3::new(148.0, 216.0, 3.0));
}

#[test]
fn invisible_tilemap_draws_nothing() {
    let tilemap = Tilemap::from_fn(4, 3, |x, y| sprite_tile((4 * y + x) as u64));
    let mut sprites = Vec::new();
    extract_tilemap(
        &mut sprites,
        Entity::from_raw(1),
        &tilemap,
        &TilemapView::All,
        placement(4),
        false,
    );
    assert!(sprites.is_empty());
}

#[test]
fn empty_view_draws_nothing() {
    let tilemap = Tilemap::from_fn(4, 3, |x, y| sprite_tile((4 * y + x) as u64));
    let mut sprites = Vec::new();
    for view in [
        TilemapView::Section { x: 4, y: 3, width: 10, height: 10 },
        TilemapView::Section { x: 100, y: 0, width: 9, height: 11 },
        TilemapView::Section { x: 0, y: 0, width: 0, height: 3 },
        TilemapView::Section { x: 0, y: 0, width: 4, height: 0 },
    ] {
        extract_tilemap(&mut sprites, Entity::from_raw(1), &tilemap, &view, placement(1), true);
        assert!(sprites.is_empty());
    }
}

#[test]
fn removed_cell_draws_nothing_until_it_is_set_again() {
    let mut tilemap = Tilemap::from_fn(3, 2, |x, y| Some(sprite_tile((3 * y + x) as u64)));
    let entity = Entity::from_raw(5);
    let ids = |tilemap: &Tilemap<Option<SpriteTile>>| -> Vec<HandleId> {
        let mut sprites = Vec::new();
        extract_tilemap(&mut sprites, entity, tilemap, &TilemapView::All, placement(3), true);
        sprites.iter().map(|sprite| sprite.image_handle_id).collect()
    };
    assert_eq!(ids(&tilemap), (0..6).map(|i| texture(i)).collect::<Vec<_>>());
    let removed = tilemap.remove(1, 1);
    assert_eq!(removed.map(|tile| tile.texture), Some(texture(4)));
    assert!(tilemap
        .extract_tile(entity, GlobalTransform::IDENTITY, 4)
        .is_none());
    assert_eq!(
        ids(&tilemap),
        [0, 1, 2, 3, 5].iter().map(|i| texture(*i)).collect::<Vec<_>>()
    );
    *tilemap.at_mut(1, 1) = Some(sprite_tile(40));
    assert_eq!(
        ids(&tilemap),
        [0, 1, 2, 3, 40, 5].iter().map(|i| texture(*i)).collect::<Vec<_>>()
    );
}

#[test]
fn removed_cell_keeps_its_place_in_the_world_empty() {
    let mut tilemap = Tilemap::from_fn(2, 2, |x, y| Some(sprite_tile((2 * y + x) as u64)));
    tilemap.remove(1, 0);
    let mut sprites = Vec::new();
    extract_tilemap(
        &mut sprites,
        Entity::from_raw(5),
        &tilemap,
        &TilemapView::All,
        placement(2),
        true,
    );
    assert_eq!(
        summary(&sprites),
        vec![
            (texture(0), Vec3::new(100.0, 200.0, 3.0)),
            (texture(2), Vec3::new(100.0, 208.0, 3.0)),
            (texture(3), Vec3::new(116.0, 208.0, 3.0)),
        ]
    );
}

#[test]
fn atlas_extraction_appends_the_regions_of_the_view() {
    let rects = regions(16);
    let image = HandleId::new(Uuid::from_u128(77), 2);
    let atlas = AtlasRegions { image, regions: &rects };
    let tilemap = Tilemap::from_fn(4, 4, |x, y| TextureAtlasTile::new(y * 4 + x));
    let view = TilemapView::Section { x: 1, y: 1, width: 3, height: 3 };
    let entity = Entity::from_raw(11);
    let mut sprites = Vec::new();
    extract_atlas_tilemap(
        &mut sprites,
        entity,
        &tilemap,
        &view,
        placement(3),
        Some(&atlas),
        true,
    );
    assert_eq!(sprites.len(), 3 * 3);
    let drawn: Vec<Option<Rect>> = sprites.iter().map(|sprite| sprite.rect).collect();
    let expected: Vec<Option<Rect>> = [5, 6, 7, 9, 10, 11, 13, 14, 15]
        .iter()
        .map(|i| Some(rects[*i]))
        .collect();
    assert_eq!(drawn, expected);
    for sprite in &sprites {
        assert_eq!(sprite.image_handle_id, image);
        assert_eq!(sprite.entity, entity);
    }
    assert_eq!(sprites[3].transform.translation(), Vec3::new(100.0, 208.0, 3.0));
    assert_eq!(sprites[8].transform.translation(), Vec3::new(132.0, 216.0, 3.0));
}

#[test]
fn atlas_tilemap_without_atlas_or_invisible_draws_nothing() {
    let rects = regions(16);
    let atlas = AtlasRegions { image: HandleId::new(Uuid::from_u128(77), 2), regions: &rects };
    let tilemap = Tilemap::from_fn(4, 4, |x, y| TextureAtlasTile::new(y * 4 + x));
    let mut sprites = Vec::new();
    let entity = Entity::from_raw(11);
    extract_atlas_tilemap(&mut sprites, entity, &tilemap, &TilemapView::All, placement(4), None, true);
    assert!(sprites.is_empty());
    extract_atlas_tilemap(
        &mut sprites,
        entity,
        &tilemap,
        &TilemapView::All,
        placement(4),
        Some(&atlas),
        false,
    );
    assert!(sprites.is_empty());
    let outside = TilemapView::Section { x: 4, y: 4, width: 1, height: 1 };
    extract_atlas_tilemap(&mut sprites, entity, &tilemap, &outside, placement(1), Some(&atlas), true);
    assert!(sprites.is_empty());
}

#[test]
fn sparse_atlas_tilemap_skips_empty_cells() {
    let rects = regions(4);
    let atlas = AtlasRegions { image: HandleId::new(Uuid::from_u128(77), 2), regions: &rects };
    let mut tilemap =
        Tilemap::from_fn(2, 2, |x, y| Some(TextureAtlasTile::new(y * 2 + x)));
    let removed = tilemap.remove(0, 1);
    assert_eq!(removed.map(|tile| tile.index), Some(2));
    let entity = Entity::from_raw(2);
    assert!(tilemap
        .extract_tile(entity, GlobalTransform::IDENTITY, &atlas, 2)
        .is_none());
    let mut sprites = Vec::new();
    extract_atlas_tilemap(
        &mut sprites,
        entity,
        &tilemap,
        &TilemapView::All,
        placement(2),
        Some(&atlas),
        true,
    );
    let drawn: Vec<Option<Rect>> = sprites.iter().map(|sprite| sprite.rect).collect();
    assert_eq!(drawn, vec![Some(rects[0]), Some(rects[1]), Some(rects[3])]);
    *tilemap.at_mut(0, 1) = Some(TextureAtlasTile::new(0));
    sprites.clear();
    extract_atlas_tilemap(
        &mut sprites,
        entity,
        &tilemap,
        &TilemapView::All,
        placement(2),
        Some(&atlas),
        true,
    );
    let drawn: Vec<Option<Rect>> = sprites.iter().map(|sprite| sprite.rect).collect();
    assert_eq!(drawn, vec![Some(rects[0]), Some(rects[1]), Some(rects[0]), Some(rects[3])]);
}

#[test]
fn view_is_drawable_looks_at_the_view_only() {
    let rects = regions(4);
    let atlas = AtlasRegions { image: HandleId::new(Uuid::from_u128(77), 2), regions: &rects };
    let tilemap = Tilemap::from_fn(3, 3, |x, y| TextureAtlasTile::new(x + y));
    assert!(!view_is_drawable(&tilemap, &atlas, &TilemapView::All));
    let corner = TilemapView::Section { x: 0, y: 0, width: 2, height: 2 };
    assert!(view_is_drawable(&tilemap, &atlas, &corner));
    let far = TilemapView::Section { x: 2, y: 2, width: 1, height: 1 };
    assert!(!view_is_drawable(&tilemap, &atlas, &far));
    let edge = TilemapView::Section { x: 0, y: 2, width: 2, height: 5 };
    assert!(view_is_drawable(&tilemap, &atlas, &edge));
    let outside = TilemapView::Section { x: 3, y: 0, width: 2, height: 2 };
    assert!(view_is_drawable(&tilemap, &atlas, &outside));
    let mut sparse = Tilemap::from_fn(3, 3, |x, y| Some(TextureAtlasTile::new(x + y)));
    assert!(!view_is_drawable(&sparse, &atlas, &far));
    assert!(!view_is_drawable(&sparse, &atlas, &TilemapView::All));
    sparse.remove(2, 2);
    assert!(view_is_drawable(&sparse, &atlas, &far));
    assert!(view_is_drawable(&sparse, &atlas, &TilemapView::All));
}

#[test]
fn checked_atlas_extraction_appends_nothing_where_a_region_is_missing() {
    let rects = regions(4);
    let atlas = AtlasRegions { image: HandleId::new(Uuid::from_u128(77), 2), regions: &rects };
    let tilemap = Tilemap::from_fn(3, 3, |x, y| TextureAtlasTile::new(x + y));
    let entity = Entity::from_raw(2);
    let mut sprites = Vec::new();
    let all = TilemapView::All;
    assert!(!try_extract_atlas_tilemap(
        &mut sprites,
        entity,
        &tilemap,
        &all,
        placement(3),
        Some(&atlas),
        true
    ));
    assert!(sprites.is_empty());
    assert!(try_extract_atlas_tilemap(
        &mut sprites,
        entity,
        &tilemap,
        &all,
        placement(3),
        Some(&atlas),
        false
    ));
    assert!(sprites.is_empty());
    assert!(try_extract_atlas_tilemap(&mut sprites, entity, &tilemap, &all, placement(3), None, true));
    assert!(sprites.is_empty());
    let corner = TilemapView::Section { x: 0, y: 0, width: 2, height: 2 };
    assert!(try_extract_atlas_tilemap(
        &mut sprites,
        entity,
        &tilemap,
        &corner,
        placement(2),
        Some(&atlas),
        true
    ));
    let drawn: Vec<Option<Rect>> = sprites.iter().map(|sprite| sprite.rect).collect();
    assert_eq!(
        drawn,
        vec![Some(rects[0]), Some(rects[1]), Some(rects[1]), Some(rects[2])]
    );
}

#[test]
fn extraction_of_a_large_grid() {
    let tilemap = Tilemap::from_fn(200, 200, |x, y| TextureAtlasTile::new((x + y) % 16));
    let rects = regions(16);
    let atlas = AtlasRegions { image: HandleId::new(Uuid::from_u128(77), 2), regions: &rects };
    let mut sprites = Vec::new();
    extract_atlas_tilemap(
        &mut sprites,
        Entity::from_raw(0),
        &tilemap,
        &TilemapView::All,
        placement(200),
        Some(&atlas),
        true,
    );
    assert_eq!(sprites.len(), 40_000);
    assert_eq!(sprites[201].rect, Some(rects[2]));
    assert_eq!(tilemap.width() * tilemap.height(), 40_000);
}
