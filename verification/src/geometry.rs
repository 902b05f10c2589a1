use vstd::prelude::*;

verus! {

/// The part of a tilemap that is drawn.
#[derive(Clone, Copy, Debug)]
pub enum TilemapView {
    /// Draw the entire tilemap.
    All,
    /// Draw a rectangular subsection of the tilemap. A section that
    /// reaches past the grid is cut down to the part that lies inside it.
    Section { x: usize, y: usize, width: usize, height: usize },
}

impl Default for TilemapView {
    fn default() -> (view: Self)
        ensures
            view == TilemapView::All,
    {
        TilemapView::All
    }
}

/// Number of cells, out of `length` cells that start at offset `min`, that
/// lie inside an axis of `space` cells: `min(length, space - min(min, space))`.
pub open spec fn clipped_extent(space: int, min: int, length: int) -> int {
    if min >= space {
        0
    } else if length <= space - min {
        length
    } else {
        space - min
    }
}

pub fn clip_axis(space: usize, min: usize, length: usize) -> (clipped: usize)
    ensures
        clipped == clipped_extent(space as int, min as int, length as int),
{
    let room: usize = if min >= space {
        0
    } else {
        space - min
    };
    if length <= room {
        length
    } else {
        room
    }
}

impl TilemapView {
    /// The rectangle `(x, y, width, height)` of cells that this view selects
    /// in a grid of `grid_width` columns and `grid_height` rows. The offsets
    /// are those asked for; the extents are cut down to the grid.
    pub open spec fn clipped(self, grid_width: usize, grid_height: usize) -> (
        usize,
        usize,
        usize,
        usize,
    ) {
        match self {
            TilemapView::All => (0, 0, grid_width, grid_height),
            TilemapView::Section { x, y, width, height } => (
                x,
                y,
                clipped_extent(grid_width as int, x as int, width as int) as usize,
                clipped_extent(grid_height as int, y as int, height as int) as usize,
            ),
        }
    }

    /// Cuts the view down to a grid of `map_size[0]` columns and
    /// `map_size[1]` rows. The result is `[x, y, width, height]`.
    pub fn clip(&self, map_size: [usize; 2]) -> (rectangle: [usize; 4])
        ensures
            (rectangle[0], rectangle[1], rectangle[2], rectangle[3]) == self.clipped(
                map_size[0],
                map_size[1],
            ),
    {
        match *self {
            TilemapView::All => [0, 0, map_size[0], map_size[1]],
            TilemapView::Section { x, y, width, height } => [
                x,
                y,
                clip_axis(map_size[0], x, width),
                clip_axis(map_size[1], y, height),
            ],
        }
    }
}

/// A clipped view never holds more cells than were asked for nor than the
/// grid has; where it starts inside the grid (or on its far edge) it ends
/// inside the grid; and a section that lies inside the grid is unchanged.
pub proof fn lemma_clip_stays_in_grid(view: TilemapView, grid_width: usize, grid_height: usize)
    ensures
        ({
            let (x, y, w, h) = view.clipped(grid_width, grid_height);
            &&& w <= grid_width
            &&& h <= grid_height
            &&& x <= grid_width ==> x + w <= grid_width
            &&& y <= grid_height ==> y + h <= grid_height
            &&& x >= grid_width ==> w == 0
            &&& y >= grid_height ==> h == 0
            &&& view matches TilemapView::Section { x: sx, y: sy, width, height } ==> {
                &&& w <= width
                &&& h <= height
                &&& sx + width <= grid_width ==> w == width
                &&& sy + height <= grid_height ==> h == height
            }
        }),
{
}

} // verus!
