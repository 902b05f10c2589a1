use crate::engine::{append_sprite, translate, translated};
use crate::geometry::{lemma_clip_stays_in_grid, TilemapView};
use crate::indexing::{lemma_cell_index_in_grid, linear_index, IndexableGrid};
use bevy::asset::HandleId;
use bevy::math::{Rect, Vec3A};
use bevy::prelude::{Entity, GlobalTransform};
use bevy::sprite::ExtractedSprite;
use vstd::arithmetic::div_mod::{lemma_fundamental_div_mod, lemma_fundamental_div_mod_converse};
use vstd::prelude::*;

verus! {

/// A tilemap whose cells are drawn each from a texture of its own.
pub trait ExtractableTilemap: IndexableGrid {
    /// What the cell at `index` draws for `entity` when it stands at
    /// `transform`: one sprite, or nothing.
    spec fn extracted(&self, entity: Entity, transform: GlobalTransform, index: usize) -> Option<
        ExtractedSprite,
    >;

    fn extract_tile(&self, entity: Entity, transform: GlobalTransform, index: usize) -> (sprite:
        Option<ExtractedSprite>)
        requires
            index < self.grid_width() * self.grid_height(),
        ensures
            sprite == self.extracted(entity, transform, index),
    ;
}

/// A texture atlas as far as drawing reads it: the image that holds every
/// region, and the rectangle that each region takes of it.
#[derive(Clone, Copy, Debug)]
pub struct AtlasRegions<'a> {
    /// Identity of the atlas's image.
    pub image: HandleId,
    /// The source rectangle of each region, by its index.
    pub regions: &'a [Rect],
}

/// A tilemap whose cells are drawn from the regions of one texture atlas.
pub trait ExtractableAtlasTilemap: IndexableGrid {
    /// Whether the atlas has the region that the cell at `index` draws. A
    /// cell that draws nothing asks for no region.
    spec fn drawable(&self, texture_atlas: AtlasRegions<'_>, index: usize) -> bool;

    /// What the cell at `index` draws for `entity` when it stands at
    /// `transform`: one sprite, or nothing.
    spec fn extracted(
        &self,
        entity: Entity,
        transform: GlobalTransform,
        texture_atlas: AtlasRegions<'_>,
        index: usize,
    ) -> Option<ExtractedSprite>;

    fn extract_tile(
        &self,
        entity: Entity,
        transform: GlobalTransform,
        texture_atlas: &AtlasRegions<'_>,
        index: usize,
    ) -> (sprite: Option<ExtractedSprite>)
        requires
            index < self.grid_width() * self.grid_height(),
            self.drawable(*texture_atlas, index),
        ensures
            sprite == self.extracted(entity, transform, *texture_atlas, index),
    ;

    /// Tells whether the atlas has the region that the cell at `index`
    /// draws.
    fn tile_drawable(&self, texture_atlas: &AtlasRegions<'_>, index: usize) -> (drawable: bool)
        requires
            index < self.grid_width() * self.grid_height(),
        ensures
            drawable == self.drawable(*texture_atlas, index),
    ;
}

/// Where the cells of a view stand in world space.
#[derive(Clone, Copy, Debug)]
pub struct GridPlacement {
    /// World transform of the first cell of the view.
    pub origin: GlobalTransform,
    /// World-space step from a cell to the next cell of its row.
    pub step_row: Vec3A,
    /// World-space step from the place behind the last cell of a row to the
    /// first cell of the next row.
    pub next_row_step: Vec3A,
}

/// The linear index of the `k`-th cell that a walk visits: the walk passes
/// a rectangle of `view_width` columns that starts at `(view_x, view_y)`,
/// row by row.
pub open spec fn cell_index(grid_width: int, view_x: int, view_y: int, view_width: int, k: int)
    -> int {
    linear_index(grid_width, view_x + k % view_width, view_y + k / view_width)
}

/// The world transform of the `k`-th cell that a walk visits. Each cell is
/// reached from the one before it by adding the row step to its
/// translation and, where a row has ended, the step to the next row after
/// that.
pub open spec fn cell_transform(placement: GridPlacement, view_width: int, k: int)
    -> GlobalTransform
    decreases k,
{
    if k <= 0 {
        placement.origin
    } else {
        let along = translated(cell_transform(placement, view_width, k - 1), placement.step_row);
        if k % view_width == 0 {
            translated(along, placement.next_row_step)
        } else {
            along
        }
    }
}

/// The cells that are drawn of a grid of `grid_width` columns and
/// `grid_height` rows under `view`, in the order in which they are drawn,
/// each with its linear index and its world transform.
pub open spec fn view_cells(
    grid_width: usize,
    grid_height: usize,
    view: TilemapView,
    placement: GridPlacement,
) -> Seq<(usize, GlobalTransform)> {
    let (x, y, w, h) = view.clipped(grid_width, grid_height);
    Seq::new(
        (w * h) as nat,
        |k: int|
            (
                cell_index(grid_width as int, x as int, y as int, w as int, k) as usize,
                cell_transform(placement, w as int, k),
            ),
    )
}

/// The rectangle that a walk passes and where it stands in the world.
struct Walk {
    grid_width: usize,
    view_x: usize,
    view_y: usize,
    view_width: usize,
    view_height: usize,
    placement: GridPlacement,
}

impl Walk {
    spec fn total(self) -> int {
        self.view_width * self.view_height
    }

    spec fn cell(self, k: int) -> (usize, GlobalTransform) {
        (
            cell_index(
                self.grid_width as int,
                self.view_x as int,
                self.view_y as int,
                self.view_width as int,
                k,
            ) as usize,
            cell_transform(self.placement, self.view_width as int, k),
        )
    }

    spec fn fits(self) -> bool {
        &&& self.view_x + self.view_width <= self.grid_width
        &&& (self.view_y + self.view_height) * self.grid_width <= usize::MAX
    }
}

/// A walk over the cells of a view that hands them out one by one. It
/// keeps the index and the transform of the next cell and reaches each
/// from the one before by additions alone.
pub struct GridCoords {
    transform: GlobalTransform,
    step_row: Vec3A,
    next_row_step: Vec3A,
    cell_index: usize,
    next_row_skip: usize,
    view_width: usize,
    x: usize,
    remaining: usize,
    walk: Ghost<Walk>,
}

impl View for GridCoords {
    type V = Seq<(usize, GlobalTransform)>;

    /// The cells that are still to come, in order.
    closed spec fn view(&self) -> Seq<(usize, GlobalTransform)> {
        Seq::new(self.remaining as nat, |i: int| self.walk@.cell(self.passed() + i))
    }
}

impl GridCoords {
    /// Number of cells that the walk has handed out.
    spec fn passed(self) -> int {
        self.walk@.total() - self.remaining
    }

    #[verifier::type_invariant]
    spec fn wf(self) -> bool {
        let walk = self.walk@;
        &&& walk.fits()
        &&& self.remaining <= walk.total()
        &&& self.view_width == walk.view_width
        &&& self.next_row_skip == walk.grid_width - walk.view_width
        &&& self.step_row == walk.placement.step_row
        &&& self.next_row_step == walk.placement.next_row_step
        &&& self.remaining > 0 ==> {
            &&& self.x == self.passed() % (walk.view_width as int)
            &&& (self.cell_index, self.transform) == walk.cell(self.passed())
        }
    }

    /// Number of cells that are still to come.
    pub fn remaining(&self) -> (count: usize)
        ensures
            count == self@.len(),
    {
        self.remaining
    }

    /// Hands out the next cell, its linear index and its world transform,
    /// and moves on; `None` once every cell has been handed out.
    pub fn next(&mut self) -> (cell: Option<(usize, GlobalTransform)>)
        ensures
            old(self)@.len() == 0 ==> cell is None && final(self)@ == old(self)@,
            old(self)@.len() > 0 ==> cell == Some(old(self)@[0]) && final(self)@ == old(
                self,
            )@.drop_first(),
    {
        proof {
            use_type_invariant(&*self);
        }
        if self.remaining == 0 {
            return None;
        }
        let ghost walk = self.walk@;
        let ghost k = self.passed();
        let out = (self.cell_index, self.transform);
        assert(out == self@[0]);
        let mut transform = self.transform;
        let mut cell_index = self.cell_index;
        let mut x = self.x;
        if self.remaining > 1 {
            proof {
                lemma_walk_stays_in_rows(walk, k);
                lemma_walk_stays_in_rows(walk, k + 1);
                lemma_next_cell(walk, k);
            }
            translate(&mut transform, self.step_row);
            cell_index = cell_index + 1;
            x = x + 1;
            if x == self.view_width {
                x = 0;
                cell_index = cell_index + self.next_row_skip;
                translate(&mut transform, self.next_row_step);
            }
        }
        let ghost before = self@;
        *self = GridCoords {
            transform,
            step_row: self.step_row,
            next_row_step: self.next_row_step,
            cell_index,
            next_row_skip: self.next_row_skip,
            view_width: self.view_width,
            x,
            remaining: self.remaining - 1,
            walk: self.walk,
        };
        assert(self@ =~= before.drop_first());
        Some(out)
    }
}

/// The walk over the cells that `view` selects of a grid of `grid_width`
/// columns and `grid_height` rows. A view that reaches past the grid is cut
/// down to it; one that lies outside it selects nothing.
pub fn iter_grid_coords(
    grid_width: usize,
    grid_height: usize,
    view: &TilemapView,
    placement: GridPlacement,
) -> (coords: GridCoords)
    requires
        grid_width * grid_height <= usize::MAX,
    ensures
        coords@ == view_cells(grid_width, grid_height, *view, placement),
        coords@.len() == view.clipped(grid_width, grid_height).2 * view.clipped(
            grid_width,
            grid_height,
        ).3,
{
    let clipped = view.clip([grid_width, grid_height]);
    let view_x = clipped[0];
    let view_y = clipped[1];
    let view_width = clipped[2];
    let view_height = clipped[3];
    if view_width == 0 || view_height == 0 {
        let coords = GridCoords {
            transform: placement.origin,
            step_row: placement.step_row,
            next_row_step: placement.next_row_step,
            cell_index: 0,
            next_row_skip: 0,
            view_width: 0,
            x: 0,
            remaining: 0,
            walk: Ghost(
                Walk {
                    grid_width: 0,
                    view_x: 0,
                    view_y: 0,
                    view_width: 0,
                    view_height: 0,
                    placement,
                },
            ),
        };
        proof {
            assert(view_width * view_height == 0) by (nonlinear_arith)
                requires
                    view_width == 0 || view_height == 0,
            ;
            assert(coords@ =~= view_cells(grid_width, grid_height, *view, placement));
        }
        return coords;
    }
    let ghost walk = Walk { grid_width, view_x, view_y, view_width, view_height, placement };
    proof {
        lemma_clip_stays_in_grid(*view, grid_width, grid_height);
        lemma_rectangle_in_grid(
            grid_width as int,
            grid_height as int,
            view_x as int,
            view_y as int,
            view_width as int,
            view_height as int,
        );
        lemma_walk_stays_in_rows(walk, 0);
    }
    let coords = GridCoords {
        transform: placement.origin,
        step_row: placement.step_row,
        next_row_step: placement.next_row_step,
        cell_index: view_y * grid_width + view_x,
        next_row_skip: grid_width - view_width,
        view_width,
        x: 0,
        remaining: view_width * view_height,
        walk: Ghost(walk),
    };
    proof {
        assert(coords@ =~= view_cells(grid_width, grid_height, *view, placement));
    }
    coords
}

/// The walk over the cells that `view` selects of `grid`. A grid's cells
/// can always be counted, so that this walk asks nothing of its caller.
pub fn iter_view_coords<G>(grid: &G, view: &TilemapView, placement: GridPlacement) -> (coords:
    GridCoords) where G: IndexableGrid
    ensures
        coords@ == view_cells(grid.grid_width(), grid.grid_height(), *view, placement),
        coords@.len() == view.clipped(grid.grid_width(), grid.grid_height()).2 * view.clipped(
            grid.grid_width(),
            grid.grid_height(),
        ).3,
        grid.grid_width() * grid.grid_height() <= usize::MAX,
{
    let grid_width = grid.width();
    let grid_height = grid.height();
    iter_grid_coords(grid_width, grid_height, view, placement)
}

/// The sprites that `cells` draw, in their order: each cell adds the sprite
/// that the tilemap gives for it, if it gives one.
pub open spec fn sprites_of<T: ExtractableTilemap>(
    tilemap: &T,
    entity: Entity,
    cells: Seq<(usize, GlobalTransform)>,
) -> Seq<ExtractedSprite>
    decreases cells.len(),
{
    if cells.len() == 0 {
        Seq::empty()
    } else {
        let before = sprites_of(tilemap, entity, cells.drop_last());
        match tilemap.extracted(entity, cells.last().1, cells.last().0) {
            Some(sprite) => before.push(sprite),
            None => before,
        }
    }
}

/// What one tilemap adds to the sprites of a frame: nothing where it is
/// not visible, else the sprites of the cells of its view.
pub open spec fn extraction<T: ExtractableTilemap>(
    tilemap: &T,
    entity: Entity,
    view: TilemapView,
    placement: GridPlacement,
    visible: bool,
) -> Seq<ExtractedSprite> {
    if visible {
        sprites_of(
            tilemap,
            entity,
            view_cells(tilemap.grid_width(), tilemap.grid_height(), view, placement),
        )
    } else {
        Seq::empty()
    }
}

/// Draws one tilemap: appends to `extracted_sprites` the sprite of each
/// cell of the view, in row-major order. A tilemap that is not visible, or
/// whose view holds no cell of the grid, adds nothing.
pub fn extract_tilemap<T>(
    extracted_sprites: &mut Vec<ExtractedSprite>,
    entity: Entity,
    tilemap: &T,
    view: &TilemapView,
    placement: GridPlacement,
    visible: bool,
) where T: ExtractableTilemap
    ensures
        final(extracted_sprites)@ == old(extracted_sprites)@ + extraction(
            tilemap,
            entity,
            *view,
            placement,
            visible,
        ),
{
    if !visible {
        assert(extracted_sprites@ =~= extracted_sprites@ + Seq::<ExtractedSprite>::empty());
        return ;
    }
    let mut coords = iter_view_coords(tilemap, view, placement);
    let ghost cells = coords@;
    let ghost mut done: int = 0;
    proof {
        lemma_view_cells_in_grid(tilemap.grid_width(), tilemap.grid_height(), *view, placement);
        assert(cells.take(0) =~= Seq::empty());
        assert(extracted_sprites@ =~= old(extracted_sprites)@ + sprites_of(
            tilemap,
            entity,
            cells.take(0),
        ));
    }
    loop
        invariant
            0 <= done <= cells.len(),
            coords@ == cells.skip(done),
            forall|k: int|
                0 <= k < cells.len() ==> (#[trigger] cells[k]).0 < tilemap.grid_width()
                    * tilemap.grid_height(),
            extracted_sprites@ == old(extracted_sprites)@ + sprites_of(
                tilemap,
                entity,
                cells.take(done),
            ),
        ensures
            done == cells.len(),
            extracted_sprites@ == old(extracted_sprites)@ + sprites_of(
                tilemap,
                entity,
                cells.take(done),
            ),
        decreases cells.len() - done,
    {
        let cell = coords.next();
        match cell {
            None => {
                break ;
            },
            Some((index, transform)) => {
                assert(cells.skip(done)[0] == cells[done]);
                assert(cells.skip(done).drop_first() =~= cells.skip(done + 1));
                assert(cells.take(done + 1).drop_last() =~= cells.take(done));
                if let Some(sprite) = tilemap.extract_tile(entity, transform, index) {
                    append_sprite(extracted_sprites, sprite);
                    assert(extracted_sprites@ =~= old(extracted_sprites)@ + sprites_of(
                        tilemap,
                        entity,
                        cells.take(done + 1),
                    ));
                }
                proof {
                    done = done + 1;
                }
            },
        }
    }
    assert(cells.take(done) =~= cells);
}

/// The sprites that `cells` draw from `texture_atlas`, in their order.
pub open spec fn atlas_sprites_of<T: ExtractableAtlasTilemap>(
    tilemap: &T,
    entity: Entity,
    texture_atlas: AtlasRegions<'_>,
    cells: Seq<(usize, GlobalTransform)>,
) -> Seq<ExtractedSprite>
    decreases cells.len(),
{
    if cells.len() == 0 {
        Seq::empty()
    } else {
        let before = atlas_sprites_of(tilemap, entity, texture_atlas, cells.drop_last());
        match tilemap.extracted(entity, cells.last().1, texture_atlas, cells.last().0) {
            Some(sprite) => before.push(sprite),
            None => before,
        }
    }
}

/// What one atlas tilemap adds to the sprites of a frame: nothing where it
/// is not visible or its atlas is not there, else the sprites of the cells
/// of its view.
pub open spec fn atlas_extraction<T: ExtractableAtlasTilemap>(
    tilemap: &T,
    entity: Entity,
    view: TilemapView,
    placement: GridPlacement,
    texture_atlas: Option<AtlasRegions<'_>>,
    visible: bool,
) -> Seq<ExtractedSprite> {
    match texture_atlas {
        Some(atlas) => if visible {
            atlas_sprites_of(
                tilemap,
                entity,
                atlas,
                view_cells(tilemap.grid_width(), tilemap.grid_height(), view, placement),
            )
        } else {
            Seq::empty()
        },
        None => Seq::empty(),
    }
}

/// Whether the atlas has the region of every cell that `view` selects of
/// the tilemap.
pub open spec fn view_drawable<T: ExtractableAtlasTilemap>(
    tilemap: &T,
    texture_atlas: AtlasRegions<'_>,
    view: TilemapView,
) -> bool {
    let (x, y, w, h) = view.clipped(tilemap.grid_width(), tilemap.grid_height());
    forall|column: int, row: int|
        x <= column < x + w && y <= row < y + h ==> tilemap.drawable(
            texture_atlas,
            (#[trigger] linear_index(tilemap.grid_width() as int, column, row)) as usize,
        )
}

/// Tells whether the atlas has the region of every cell that `view`
/// selects of the tilemap.
pub fn view_is_drawable<T>(
    tilemap: &T,
    texture_atlas: &AtlasRegions<'_>,
    view: &TilemapView,
) -> (drawable: bool) where T: ExtractableAtlasTilemap
    ensures
        drawable == view_drawable(tilemap, *texture_atlas, *view),
{
    let grid_width = tilemap.width();
    let grid_height = tilemap.height();
    let clipped = view.clip([grid_width, grid_height]);
    let x = clipped[0];
    let y = clipped[1];
    let w = clipped[2];
    let h = clipped[3];
    if w == 0 || h == 0 {
        return true;
    }
    proof {
        lemma_clip_stays_in_grid(*view, grid_width, grid_height);
    }
    let mut row: usize = y;
    while row < y + h
        invariant
            grid_width == tilemap.grid_width(),
            grid_height == tilemap.grid_height(),
            grid_width * grid_height <= usize::MAX,
            (x, y, w, h) == view.clipped(grid_width, grid_height),
            0 < w,
            x + w <= grid_width,
            y + h <= grid_height,
            y <= row <= y + h,
            forall|c: int, r: int|
                x <= c < x + w && y <= r < row ==> tilemap.drawable(
                    *texture_atlas,
                    (#[trigger] linear_index(grid_width as int, c, r)) as usize,
                ),
        decreases y + h - row,
    {
        proof {
            lemma_cell_index_in_grid(
                grid_width as int,
                grid_height as int,
                x as int,
                row as int,
            );
            assert(row * grid_width >= 0) by (nonlinear_arith)
                requires
                    row >= 0,
                    grid_width >= 0,
            ;
        }
        let mut column: usize = x;
        let mut index: usize = row * grid_width + x;
        while column < x + w
            invariant
                grid_width == tilemap.grid_width(),
                grid_height == tilemap.grid_height(),
                grid_width * grid_height <= usize::MAX,
                (x, y, w, h) == view.clipped(grid_width, grid_height),
                x + w <= grid_width,
                y <= row < y + h <= grid_height,
                x <= column <= x + w,
                index == linear_index(grid_width as int, column as int, row as int),
                forall|c: int, r: int|
                    x <= c < x + w && y <= r < row ==> tilemap.drawable(
                        *texture_atlas,
                        (#[trigger] linear_index(grid_width as int, c, r)) as usize,
                    ),
                forall|c: int|
                    x <= c < column ==> tilemap.drawable(
                        *texture_atlas,
                        (#[trigger] linear_index(grid_width as int, c, row as int)) as usize,
                    ),
            decreases x + w - column,
        {
            proof {
                lemma_cell_index_in_grid(
                    grid_width as int,
                    grid_height as int,
                    column as int,
                    row as int,
                );
            }
            if !tilemap.tile_drawable(texture_atlas, index) {
                return false;
            }
            column = column + 1;
            index = index + 1;
        }
        row = row + 1;
    }
    true
}

/// Draws one atlas tilemap: appends to `extracted_sprites` the sprite of
/// each cell of the view, in row-major order. A tilemap that is not
/// visible, whose atlas is not there, or whose view holds no cell of the
/// grid, adds nothing.
pub fn extract_atlas_tilemap<T>(
    extracted_sprites: &mut Vec<ExtractedSprite>,
    entity: Entity,
    tilemap: &T,
    view: &TilemapView,
    placement: GridPlacement,
    texture_atlas: Option<&AtlasRegions<'_>>,
    visible: bool,
) where T: ExtractableAtlasTilemap
    requires
        visible ==> (texture_atlas matches Some(atlas) ==> view_drawable(tilemap, *atlas, *view)),
    ensures
        final(extracted_sprites)@ == old(extracted_sprites)@ + atlas_extraction(
            tilemap,
            entity,
            *view,
            placement,
            match texture_atlas {
                Some(atlas) => Some(*atlas),
                None => None,
            },
            visible,
        ),
{
    let atlas = match texture_atlas {
        Some(atlas) => atlas,
        None => {
            assert(extracted_sprites@ =~= extracted_sprites@ + Seq::<ExtractedSprite>::empty());
            return ;
        },
    };
    if !visible {
        assert(extracted_sprites@ =~= extracted_sprites@ + Seq::<ExtractedSprite>::empty());
        return ;
    }
    let mut coords = iter_view_coords(tilemap, view, placement);
    let ghost cells = coords@;
    let ghost mut done: int = 0;
    proof {
        lemma_view_cells_in_grid(tilemap.grid_width(), tilemap.grid_height(), *view, placement);
        assert(cells.take(0) =~= Seq::empty());
        assert(extracted_sprites@ =~= old(extracted_sprites)@ + atlas_sprites_of(
            tilemap,
            entity,
            *atlas,
            cells.take(0),
        ));
    }
    loop
        invariant
            0 <= done <= cells.len(),
            coords@ == cells.skip(done),
            cells == view_cells(tilemap.grid_width(), tilemap.grid_height(), *view, placement),
            view_drawable(tilemap, *atlas, *view),
            tilemap.grid_width() * tilemap.grid_height() <= usize::MAX,
            forall|k: int|
                0 <= k < cells.len() ==> (#[trigger] cells[k]).0 < tilemap.grid_width()
                    * tilemap.grid_height(),
            extracted_sprites@ == old(extracted_sprites)@ + atlas_sprites_of(
                tilemap,
                entity,
                *atlas,
                cells.take(done),
            ),
        ensures
            done == cells.len(),
            extracted_sprites@ == old(extracted_sprites)@ + atlas_sprites_of(
                tilemap,
                entity,
                *atlas,
                cells.take(done),
            ),
        decreases cells.len() - done,
    {
        let cell = coords.next();
        match cell {
            None => {
                break ;
            },
            Some((index, transform)) => {
                assert(cells.skip(done)[0] == cells[done]);
                assert(cells.skip(done).drop_first() =~= cells.skip(done + 1));
                assert(cells.take(done + 1).drop_last() =~= cells.take(done));
                proof {
                    lemma_view_cell_position(
                        tilemap.grid_width(),
                        tilemap.grid_height(),
                        *view,
                        placement,
                        done,
                    );
                }
                if let Some(sprite) = tilemap.extract_tile(entity, transform, atlas, index) {
                    append_sprite(extracted_sprites, sprite);
                    assert(extracted_sprites@ =~= old(extracted_sprites)@ + atlas_sprites_of(
                        tilemap,
                        entity,
                        *atlas,
                        cells.take(done + 1),
                    ));
                }
                proof {
                    done = done + 1;
                }
            },
        }
    }
    assert(cells.take(done) =~= cells);
}

/// Draws one atlas tilemap where the atlas has the region of every cell
/// to draw, and tells whether it has: where a region is missing, nothing
/// is appended.
pub fn try_extract_atlas_tilemap<T>(
    extracted_sprites: &mut Vec<ExtractedSprite>,
    entity: Entity,
    tilemap: &T,
    view: &TilemapView,
    placement: GridPlacement,
    texture_atlas: Option<&AtlasRegions<'_>>,
    visible: bool,
) -> (drawn: bool) where T: ExtractableAtlasTilemap
    ensures
        drawn == (visible ==> (texture_atlas matches Some(atlas) ==> view_drawable(
            tilemap,
            *atlas,
            *view,
        ))),
        drawn ==> final(extracted_sprites)@ == old(extracted_sprites)@ + atlas_extraction(
            tilemap,
            entity,
            *view,
            placement,
            match texture_atlas {
                Some(atlas) => Some(*atlas),
                None => None,
            },
            visible,
        ),
        !drawn ==> final(extracted_sprites)@ == old(extracted_sprites)@,
{
    if visible {
        if let Some(atlas) = texture_atlas {
            if !view_is_drawable(tilemap, atlas, view) {
                return false;
            }
        }
    }
    extract_atlas_tilemap(
        extracted_sprites,
        entity,
        tilemap,
        view,
        placement,
        texture_atlas,
        visible,
    );
    true
}

/// A view walks one cell for each cell of its clipped rectangle, the
/// clipped width times the clipped height, whatever the placement: none
/// where the view clips to no width or no height, and as many under one
/// placement as under another.
pub proof fn lemma_view_cells_count(
    grid_width: usize,
    grid_height: usize,
    view: TilemapView,
    placement: GridPlacement,
)
    ensures
        ({
            let (x, y, w, h) = view.clipped(grid_width, grid_height);
            let cells = view_cells(grid_width, grid_height, view, placement);
            &&& cells.len() == w * h
            &&& cells.len() == 0 <==> w == 0 || h == 0
            &&& view matches TilemapView::Section { x: sx, y: sy, width, height } ==> (sx
                >= grid_width || sy >= grid_height || width == 0 || height == 0 ==> cells.len()
                == 0)
            &&& view is All ==> (grid_width == 0 || grid_height == 0 ==> cells.len() == 0)
        }),
{
    let (x, y, w, h) = view.clipped(grid_width, grid_height);
    assert(w * h >= 0 && (w * h == 0 <==> w == 0 || h == 0)) by (nonlinear_arith)
        requires
            w >= 0,
            h >= 0,
    ;
}

/// The cells of a walk that draw, in their order.
pub open spec fn drawing_cells<T: ExtractableTilemap>(
    tilemap: &T,
    entity: Entity,
    cells: Seq<(usize, GlobalTransform)>,
) -> Seq<(usize, GlobalTransform)> {
    cells.filter(|cell: (usize, GlobalTransform)| tilemap.extracted(entity, cell.1, cell.0) is Some)
}

/// Cells draw one sprite for each of them that draws: a tilemap with empty
/// cells adds as many sprites as its view has cells that hold a tile.
pub proof fn lemma_sprites_count_drawing_cells<T: ExtractableTilemap>(
    tilemap: &T,
    entity: Entity,
    cells: Seq<(usize, GlobalTransform)>,
)
    ensures
        sprites_of(tilemap, entity, cells).len() == drawing_cells(tilemap, entity, cells).len(),
    decreases cells.len(),
{
    reveal(Seq::filter);
    if cells.len() > 0 {
        lemma_sprites_count_drawing_cells(tilemap, entity, cells.drop_last());
    }
}

/// The cells of a walk that draw from `texture_atlas`, in their order.
pub open spec fn atlas_drawing_cells<T: ExtractableAtlasTilemap>(
    tilemap: &T,
    entity: Entity,
    texture_atlas: AtlasRegions<'_>,
    cells: Seq<(usize, GlobalTransform)>,
) -> Seq<(usize, GlobalTransform)> {
    cells.filter(
        |cell: (usize, GlobalTransform)|
            tilemap.extracted(entity, cell.1, texture_atlas, cell.0) is Some,
    )
}

/// Cells draw one sprite from an atlas for each of them that draws.
pub proof fn lemma_atlas_sprites_count_drawing_cells<T: ExtractableAtlasTilemap>(
    tilemap: &T,
    entity: Entity,
    texture_atlas: AtlasRegions<'_>,
    cells: Seq<(usize, GlobalTransform)>,
)
    ensures
        atlas_sprites_of(tilemap, entity, texture_atlas, cells).len() == atlas_drawing_cells(
            tilemap,
            entity,
            texture_atlas,
            cells,
        ).len(),
    decreases cells.len(),
{
    reveal(Seq::filter);
    if cells.len() > 0 {
        lemma_atlas_sprites_count_drawing_cells(
            tilemap,
            entity,
            texture_atlas,
            cells.drop_last(),
        );
    }
}

/// A tilemap that is not visible, or whose view holds no cell of the grid,
/// draws nothing.
pub proof fn lemma_nothing_extracted<T: ExtractableTilemap>(
    tilemap: &T,
    entity: Entity,
    view: TilemapView,
    placement: GridPlacement,
    visible: bool,
)
    requires
        !visible || view.clipped(tilemap.grid_width(), tilemap.grid_height()).2 == 0
            || view.clipped(tilemap.grid_width(), tilemap.grid_height()).3 == 0,
    ensures
        extraction(tilemap, entity, view, placement, visible) == Seq::<ExtractedSprite>::empty(),
{
    let (x, y, w, h) = view.clipped(tilemap.grid_width(), tilemap.grid_height());
    if visible {
        assert(w * h == 0) by (nonlinear_arith)
            requires
                w == 0 || h == 0,
        ;
    }
}

/// An atlas tilemap that is not visible, whose atlas is not there, or
/// whose view holds no cell of the grid, draws nothing.
pub proof fn lemma_nothing_extracted_from_atlas<T: ExtractableAtlasTilemap>(
    tilemap: &T,
    entity: Entity,
    view: TilemapView,
    placement: GridPlacement,
    texture_atlas: Option<AtlasRegions<'_>>,
    visible: bool,
)
    requires
        !visible || texture_atlas is None || view.clipped(
            tilemap.grid_width(),
            tilemap.grid_height(),
        ).2 == 0 || view.clipped(tilemap.grid_width(), tilemap.grid_height()).3 == 0,
    ensures
        atlas_extraction(tilemap, entity, view, placement, texture_atlas, visible) == Seq::<
            ExtractedSprite,
        >::empty(),
{
    let (x, y, w, h) = view.clipped(tilemap.grid_width(), tilemap.grid_height());
    if visible && texture_atlas is Some {
        assert(w * h == 0) by (nonlinear_arith)
            requires
                w == 0 || h == 0,
        ;
    }
}

/// Cells draw at most one sprite each, and exactly one each where every
/// one of them draws.
pub proof fn lemma_sprites_count<T: ExtractableTilemap>(
    tilemap: &T,
    entity: Entity,
    cells: Seq<(usize, GlobalTransform)>,
)
    ensures
        sprites_of(tilemap, entity, cells).len() <= cells.len(),
        (forall|k: int|
            0 <= k < cells.len() ==> tilemap.extracted(
                entity,
                (#[trigger] cells[k]).1,
                cells[k].0,
            ) is Some) ==> sprites_of(tilemap, entity, cells).len() == cells.len(),
    decreases cells.len(),
{
    if cells.len() > 0 {
        lemma_sprites_count(tilemap, entity, cells.drop_last());
        assert(forall|k: int|
            0 <= k < cells.drop_last().len() ==> cells.drop_last()[k] == cells[k]);
        assert(cells.last() == cells[cells.len() - 1]);
    }
}

/// Cells draw at most one sprite each from an atlas, and exactly one each
/// where every one of them draws.
pub proof fn lemma_atlas_sprites_count<T: ExtractableAtlasTilemap>(
    tilemap: &T,
    entity: Entity,
    texture_atlas: AtlasRegions<'_>,
    cells: Seq<(usize, GlobalTransform)>,
)
    ensures
        atlas_sprites_of(tilemap, entity, texture_atlas, cells).len() <= cells.len(),
        (forall|k: int|
            0 <= k < cells.len() ==> tilemap.extracted(
                entity,
                (#[trigger] cells[k]).1,
                texture_atlas,
                cells[k].0,
            ) is Some) ==> atlas_sprites_of(tilemap, entity, texture_atlas, cells).len()
            == cells.len(),
    decreases cells.len(),
{
    if cells.len() > 0 {
        lemma_atlas_sprites_count(tilemap, entity, texture_atlas, cells.drop_last());
        assert(forall|k: int|
            0 <= k < cells.drop_last().len() ==> cells.drop_last()[k] == cells[k]);
        assert(cells.last() == cells[cells.len() - 1]);
    }
}

/// A visible tilemap of which every cell draws adds one sprite for each
/// cell of its clipped view: the clipped width times the clipped height.
/// One of which some cells draw nothing adds no more than that.
pub proof fn lemma_extraction_count<T: ExtractableTilemap>(
    tilemap: &T,
    entity: Entity,
    view: TilemapView,
    placement: GridPlacement,
)
    ensures
        ({
            let (x, y, w, h) = view.clipped(tilemap.grid_width(), tilemap.grid_height());
            &&& extraction(tilemap, entity, view, placement, true).len() <= w * h
            &&& (forall|transform: GlobalTransform, index: usize| #[trigger]
                tilemap.extracted(entity, transform, index) is Some) ==> extraction(
                tilemap,
                entity,
                view,
                placement,
                true,
            ).len() == w * h
        }),
{
    let cells = view_cells(tilemap.grid_width(), tilemap.grid_height(), view, placement);
    lemma_sprites_count(tilemap, entity, cells);
}

/// A visible atlas tilemap of which every cell draws adds one sprite for
/// each cell of its clipped view: the clipped width times the clipped
/// height. One of which some cells draw nothing adds no more than that.
pub proof fn lemma_atlas_extraction_count<T: ExtractableAtlasTilemap>(
    tilemap: &T,
    entity: Entity,
    view: TilemapView,
    placement: GridPlacement,
    texture_atlas: AtlasRegions<'_>,
)
    ensures
        ({
            let (x, y, w, h) = view.clipped(tilemap.grid_width(), tilemap.grid_height());
            &&& atlas_extraction(tilemap, entity, view, placement, Some(texture_atlas), true).len()
                <= w * h
            &&& (forall|transform: GlobalTransform, index: usize| #[trigger]
                tilemap.extracted(entity, transform, texture_atlas, index) is Some)
                ==> atlas_extraction(
                tilemap,
                entity,
                view,
                placement,
                Some(texture_atlas),
                true,
            ).len() == w * h
        }),
{
    let cells = view_cells(tilemap.grid_width(), tilemap.grid_height(), view, placement);
    lemma_atlas_sprites_count(tilemap, entity, texture_atlas, cells);
}

/// Which cells a view draws, and in which order, does not depend on where
/// the grid stands in the world: two placements of one view give the same
/// number of cells and the same linear indices, each at the same place of
/// the order. The placement decides the transforms alone; a grid whose
/// rows or columns are drawn in reverse differs from one drawn forwards in
/// its placement and in nothing else.
pub proof fn lemma_indices_independent_of_placement(
    grid_width: usize,
    grid_height: usize,
    view: TilemapView,
    first: GridPlacement,
    second: GridPlacement,
)
    ensures
        view_cells(grid_width, grid_height, view, first).len() == view_cells(
            grid_width,
            grid_height,
            view,
            second,
        ).len(),
        forall|k: int|
            0 <= k < view_cells(grid_width, grid_height, view, first).len() ==> (
            #[trigger] view_cells(grid_width, grid_height, view, first)[k]).0 == view_cells(
                grid_width,
                grid_height,
                view,
                second,
            )[k].0,
{
}

/// A view draws its cells in the order of their linear indices: a cell that
/// comes later has the greater index, so that no cell is drawn twice.
pub proof fn lemma_view_cells_ascend(
    grid_width: usize,
    grid_height: usize,
    view: TilemapView,
    placement: GridPlacement,
    earlier: int,
    later: int,
)
    requires
        grid_width * grid_height <= usize::MAX,
        0 <= earlier < later < view_cells(grid_width, grid_height, view, placement).len(),
    ensures
        view_cells(grid_width, grid_height, view, placement)[earlier].0 < view_cells(
            grid_width,
            grid_height,
            view,
            placement,
        )[later].0,
{
    let (x, y, w, h) = view.clipped(grid_width, grid_height);
    lemma_view_cell_position(grid_width, grid_height, view, placement, earlier);
    lemma_view_cell_position(grid_width, grid_height, view, placement, later);
    let w = w as int;
    let gw = grid_width as int;
    lemma_fundamental_div_mod(earlier, w);
    lemma_fundamental_div_mod(later, w);
    let (q1, r1) = (earlier / w, earlier % w);
    let (q2, r2) = (later / w, later % w);
    assert(q1 <= q2) by (nonlinear_arith)
        requires
            earlier == w * q1 + r1,
            later == w * q2 + r2,
            0 <= r1 < w,
            0 <= r2 < w,
            earlier < later,
    ;
    if q1 < q2 {
        assert((y + q1) * gw + gw <= (y + q2) * gw) by (nonlinear_arith)
            requires
                q1 < q2,
                0 <= gw,
        ;
        assert((y + q2) * gw >= 0) by (nonlinear_arith)
            requires
                0 <= y + q2,
                0 <= gw,
        ;
    }
}

/// A view draws every cell of its clipped rectangle: the cell in `column`
/// and `row` comes at the place `(row - y) * w + (column - x)` of the
/// order, where the clipped view starts at `(x, y)` and is `w` wide.
pub proof fn lemma_view_visits_rectangle(
    grid_width: usize,
    grid_height: usize,
    view: TilemapView,
    placement: GridPlacement,
    column: int,
    row: int,
)
    requires
        grid_width * grid_height <= usize::MAX,
        ({
            let (x, y, w, h) = view.clipped(grid_width, grid_height);
            x <= column < x + w && y <= row < y + h
        }),
    ensures
        ({
            let (x, y, w, h) = view.clipped(grid_width, grid_height);
            let k = (row - y) * w + (column - x);
            &&& 0 <= k < view_cells(grid_width, grid_height, view, placement).len()
            &&& view_cells(grid_width, grid_height, view, placement)[k].0 == linear_index(
                grid_width as int,
                column,
                row,
            )
        }),
{
    let (x, y, w, h) = view.clipped(grid_width, grid_height);
    let k = (row - y) * w + (column - x);
    lemma_cell_index_in_grid(w as int, h as int, column - x, row - y);
    lemma_fundamental_div_mod_converse(k, w as int, row - y, column - x);
    lemma_view_cell_position(grid_width, grid_height, view, placement, k);
}

/// Every cell that a view draws is a cell of the grid.
pub proof fn lemma_view_cells_in_grid(
    grid_width: usize,
    grid_height: usize,
    view: TilemapView,
    placement: GridPlacement,
)
    requires
        grid_width * grid_height <= usize::MAX,
    ensures
        forall|k: int|
            #![trigger view_cells(grid_width, grid_height, view, placement)[k]]
            0 <= k < view_cells(grid_width, grid_height, view, placement).len() ==> view_cells(
                grid_width,
                grid_height,
                view,
                placement,
            )[k].0 < grid_width * grid_height,
{
    let cells = view_cells(grid_width, grid_height, view, placement);
    assert forall|k: int| 0 <= k < cells.len() implies (#[trigger] cells[k]).0 < grid_width
        * grid_height by {
        lemma_view_cell_position(grid_width, grid_height, view, placement, k);
    }
}

/// The `k`-th cell that a view draws stands, in the grid, at the column
/// and the row that are `k % w` and `k / w` behind the view's first, where
/// `w` is the width of the clipped view; both lie in the clipped view, and
/// the cell's index is that of this column and row.
pub proof fn lemma_view_cell_position(
    grid_width: usize,
    grid_height: usize,
    view: TilemapView,
    placement: GridPlacement,
    k: int,
)
    requires
        grid_width * grid_height <= usize::MAX,
        0 <= k < view_cells(grid_width, grid_height, view, placement).len(),
    ensures
        ({
            let (x, y, w, h) = view.clipped(grid_width, grid_height);
            let column = x + k % (w as int);
            let row = y + k / (w as int);
            &&& x <= column < x + w <= grid_width
            &&& y <= row < y + h <= grid_height
            &&& view_cells(grid_width, grid_height, view, placement)[k].0 == linear_index(
                grid_width as int,
                column,
                row,
            )
            &&& linear_index(grid_width as int, column, row) < grid_width * grid_height
        }),
{
    let (x, y, w, h) = view.clipped(grid_width, grid_height);
    lemma_clip_stays_in_grid(view, grid_width, grid_height);
    assert(w > 0 && h > 0) by (nonlinear_arith)
        requires
            0 <= k < w * h,
            w >= 0,
            h >= 0,
    ;
    lemma_rectangle_in_grid(
        grid_width as int,
        grid_height as int,
        x as int,
        y as int,
        w as int,
        h as int,
    );
    let walk = Walk {
        grid_width,
        view_x: x,
        view_y: y,
        view_width: w,
        view_height: h,
        placement,
    };
    lemma_walk_stays_in_rows(walk, k);
    lemma_cell_index_in_grid(
        grid_width as int,
        grid_height as int,
        x + k % (w as int),
        y + k / (w as int),
    );
}

/// A rectangle of `w` by `h` cells that lies in a grid of `gw` by `gh`
/// cells has no more cells than the grid, and the rows down to its last
/// hold no more cells than the grid.
proof fn lemma_rectangle_in_grid(gw: int, gh: int, x: int, y: int, w: int, h: int)
    requires
        0 <= x,
        0 <= y,
        0 < w,
        0 < h,
        x + w <= gw,
        y + h <= gh,
    ensures
        0 < w * h <= gw * gh,
        (y + h) * gw <= gw * gh,
{
    assert(0 < w * h <= gw * gh) by (nonlinear_arith)
        requires
            0 < w <= gw,
            0 < h <= gh,
    ;
    assert((y + h) * gw <= gw * gh) by (nonlinear_arith)
        requires
            0 <= y + h <= gh,
            0 <= gw,
    ;
}

/// The `k`-th cell of a walk lies in the walk's rectangle: its column and
/// its row are inside it, and its linear index is below the end of the
/// rectangle's last row.
proof fn lemma_walk_stays_in_rows(walk: Walk, k: int)
    requires
        walk.fits(),
        0 <= k < walk.total(),
    ensures
        0 <= k % (walk.view_width as int) < walk.view_width,
        0 <= k / (walk.view_width as int) < walk.view_height,
        0 <= cell_index(
            walk.grid_width as int,
            walk.view_x as int,
            walk.view_y as int,
            walk.view_width as int,
            k,
        ) < (walk.view_y + walk.view_height) * walk.grid_width,
{
    let w = walk.view_width as int;
    let h = walk.view_height as int;
    let gw = walk.grid_width as int;
    assert(w > 0) by (nonlinear_arith)
        requires
            0 <= k < w * h,
            w >= 0,
    ;
    lemma_fundamental_div_mod(k, w);
    let q = k / w;
    let r = k % w;
    assert(0 <= q < h) by (nonlinear_arith)
        requires
            k == w * q + r,
            0 <= r < w,
            0 <= k < w * h,
    ;
    let row = walk.view_y + q;
    let col = walk.view_x + r;
    assert(0 <= row * gw + col < (walk.view_y + h) * gw) by (nonlinear_arith)
        requires
            0 <= col < gw,
            0 <= row < walk.view_y + h,
    ;
}

/// How the walk gets from its `k`-th cell to the next: within a row the
/// column and the index grow by one; behind the last column of a row the
/// column starts again and the index skips the rest of the grid's row.
proof fn lemma_next_cell(walk: Walk, k: int)
    requires
        walk.fits(),
        0 <= k,
        k + 1 < walk.total(),
    ensures
        ({
            let w = walk.view_width as int;
            let here = cell_index(
                walk.grid_width as int,
                walk.view_x as int,
                walk.view_y as int,
                w,
                k,
            );
            let there = cell_index(
                walk.grid_width as int,
                walk.view_x as int,
                walk.view_y as int,
                w,
                k + 1,
            );
            if k % w + 1 == w {
                &&& (k + 1) % w == 0
                &&& there == here + 1 + (walk.grid_width - w)
            } else {
                &&& (k + 1) % w == k % w + 1
                &&& there == here + 1
            }
        }),
{
    let w = walk.view_width as int;
    let gw = walk.grid_width as int;
    lemma_walk_stays_in_rows(walk, k);
    lemma_fundamental_div_mod(k, w);
    let q = k / w;
    let r = k % w;
    if r + 1 == w {
        assert(k + 1 == (q + 1) * w + 0) by (nonlinear_arith)
            requires
                k == w * q + r,
                r + 1 == w,
        ;
        lemma_fundamental_div_mod_converse(k + 1, w, q + 1, 0);
        assert((walk.view_y + q + 1) * gw == (walk.view_y + q) * gw + gw) by (nonlinear_arith);
    } else {
        assert(k + 1 == q * w + (r + 1)) by (nonlinear_arith)
            requires
                k == w * q + r,
        ;
        lemma_fundamental_div_mod_converse(k + 1, w, q, r + 1);
    }
}

} // verus!
