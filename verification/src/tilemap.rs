use crate::indexing::{
    lemma_cell_index_in_grid, lemma_linear_index_splits, linear_index, IndexableGrid,
};
use crate::tile::Tileable;
use std::ops::Index;
use vstd::prelude::*;
use vstd::std_specs::iter::IteratorSpec;

verus! {

/// A grid of tiles, stored row by row.
#[derive(Debug)]
pub struct Tilemap<T> where T: Tileable {
    /// tile data
    tiles: Vec<T>,
    /// width of grid in cells
    width: usize,
    /// height of grid in cells
    height: usize,
}

impl<T> View for Tilemap<T> where T: Tileable {
    type V = Seq<T>;

    /// The tiles in row-major order: the tile in column `x` of row `y` is
    /// at `y * width + x`.
    closed spec fn view(&self) -> Seq<T> {
        self.tiles@
    }
}

impl<T> Tilemap<T> where T: Tileable {
    /// A tilemap holds exactly one tile for each cell of its grid.
    #[verifier::type_invariant]
    pub closed spec fn wf(self) -> bool {
        self.tiles@.len() == self.width * self.height
    }

    /// The tile in column `x` of row `y`.
    pub open spec fn cell(self, x: int, y: int) -> T {
        self@[linear_index(self.grid_width() as int, x, y)]
    }

    /// A well-formed tilemap has `width * height` tiles.
    pub proof fn lemma_cell_count(self)
        requires
            self.wf(),
        ensures
            self@.len() == self.grid_width() * self.grid_height(),
    {
    }
}

impl<T> IndexableGrid for Tilemap<T> where T: Tileable {
    closed spec fn grid_width(&self) -> usize {
        self.width
    }

    closed spec fn grid_height(&self) -> usize {
        self.height
    }

    fn width(&self) -> (w: usize) {
        proof {
            use_type_invariant(self);
            assert(self.tiles@.len() == self.tiles.len());
            assert(self.grid_width() * self.grid_height() == self.tiles@.len());
        }
        self.width
    }

    fn height(&self) -> (h: usize) {
        proof {
            use_type_invariant(self);
            assert(self.tiles@.len() == self.tiles.len());
            assert(self.grid_width() * self.grid_height() == self.tiles@.len());
        }
        self.height
    }
}

impl<T> Default for Tilemap<T> where T: Tileable {
    /// A grid of one cell that holds the default tile.
    fn default() -> (tilemap: Self)
        ensures
            tilemap.grid_width() == 1,
            tilemap.grid_height() == 1,
            tilemap@.len() == 1,
            call_ensures(T::default, (), tilemap@[0]),
    {
        let mut tiles: Vec<T> = Vec::new();
        tiles.push(T::default());
        Tilemap { tiles, width: 1, height: 1 }
    }
}

impl<T> Clone for Tilemap<T> where T: Tileable {
    /// A grid of the same extents whose tiles are clones of this one's.
    fn clone(&self) -> (tilemap: Self)
        ensures
            tilemap.grid_width() == self.grid_width(),
            tilemap.grid_height() == self.grid_height(),
            tilemap@.len() == self@.len(),
            forall|i: int| 0 <= i < self@.len() ==> cloned(self@[i], #[trigger] tilemap@[i]),
    {
        proof {
            use_type_invariant(self);
        }
        Tilemap { tiles: self.tiles.clone(), width: self.width, height: self.height }
    }
}

impl<T> Tilemap<T> where T: Tileable {
    /// A grid of `width` columns and `height` rows in which every cell
    /// holds a clone of `initial_sprite`.
    pub fn from_elem(width: usize, height: usize, initial_sprite: T) -> (tilemap: Self)
        requires
            width * height <= usize::MAX,
        ensures
            tilemap.grid_width() == width,
            tilemap.grid_height() == height,
            tilemap@.len() == width * height,
            forall|i: int|
                0 <= i < width * height ==> cloned(initial_sprite, #[trigger] tilemap@[i]),
    {
        Tilemap { tiles: vec![initial_sprite; width * height], width, height }
    }

    /// A grid of `width` columns and `height` rows in which every cell
    /// holds a clone of the default tile.
    pub fn from_default(width: usize, height: usize) -> (tilemap: Self)
        requires
            width * height <= usize::MAX,
        ensures
            tilemap.grid_width() == width,
            tilemap.grid_height() == height,
            tilemap@.len() == width * height,
            exists|initial: T|
                {
                    &&& call_ensures(T::default, (), initial)
                    &&& forall|i: int|
                        0 <= i < width * height ==> cloned(initial, #[trigger] tilemap@[i])
                },
    {
        Self::from_elem(width, height, T::default())
    }

    /// A grid of `width` columns and `height` rows in which the cell in
    /// column `x` of row `y` holds what `f(x, y)` gave. `f` is called once
    /// for each cell, row by row, from the first column of each row on.
    pub fn from_fn(width: usize, height: usize, mut f: impl FnMut(usize, usize) -> T) -> (tilemap:
        Self)
        requires
            width * height <= usize::MAX,
            forall|x: usize, y: usize| x < width && y < height ==> call_requires(f, (x, y)),
        ensures
            tilemap.grid_width() == width,
            tilemap.grid_height() == height,
            tilemap@.len() == width * height,
            forall|x: usize, y: usize|
                x < width && y < height ==> call_ensures(
                    f,
                    (x, y),
                    #[trigger] tilemap.cell(x as int, y as int),
                ),
    {
        let count: usize = width * height;
        let ghost generator = f;
        let mut sprites: Vec<T> = Vec::new();
        let mut x: usize = 0;
        let mut y: usize = 0;
        while sprites.len() < count
            invariant
                f == generator,
                count == width * height,
                x < width || count == 0,
                y <= height,
                sprites@.len() == y * width + x,
                sprites@.len() <= count,
                forall|x: usize, y: usize| x < width && y < height ==> call_requires(f, (x, y)),
                forall|i: usize, j: usize|
                    i < width && j < height && j * width + i < sprites@.len() ==> call_ensures(
                        f,
                        (i, j),
                        #[trigger] sprites@[j * width + i],
                    ),
            decreases count - sprites@.len(),
        {
            proof {
                lemma_row_major_position(width as int, height as int, x as int, y as int);
            }
            let ghost before = sprites@;
            let sprite = f(x, y);
            sprites.push(sprite);
            proof {
                assert forall|i: usize, j: usize|
                    i < width && j < height && j * width + i < sprites@.len() implies call_ensures(
                    f,
                    (i, j),
                    #[trigger] sprites@[j * width + i],
                ) by {
                    if j * width + i < before.len() {
                        assert(sprites@[j * width + i] == before[j * width + i]);
                    } else {
                        lemma_row_major_unique(
                            width as int,
                            i as int,
                            j as int,
                            x as int,
                            y as int,
                        );
                    }
                }
            }
            x = x + 1;
            if x == width {
                assert((y + 1) * width == y * width + width) by (nonlinear_arith);
                x = 0;
                y = y + 1;
            }
        }
        let tilemap = Tilemap { tiles: sprites, width, height };
        proof {
            assert forall|x: usize, y: usize| x < width && y < height implies call_ensures(
                f,
                (x, y),
                #[trigger] tilemap.cell(x as int, y as int),
            ) by {
                lemma_cell_index_in_grid(width as int, height as int, x as int, y as int);
                assert(tilemap.cell(x as int, y as int) == sprites@[y * width + x]);
            }
        }
        tilemap
    }

    /// The number of tiles, which is the number of cells of the grid.
    pub fn len(&self) -> (n: usize)
        ensures
            n == self@.len(),
            n == self.grid_width() * self.grid_height(),
    {
        proof {
            use_type_invariant(self);
        }
        self.tiles.len()
    }

    /// The tile at the linear index `index`, to be changed in place.
    pub fn index_mut(&mut self, index: usize) -> (tile: &mut T)
        requires
            index < old(self)@.len(),
        ensures
            *tile == old(self)@[index as int],
            final(self)@ == old(self)@.update(index as int, *final(tile)),
            final(self).grid_width() == old(self).grid_width(),
            final(self).grid_height() == old(self).grid_height(),
    {
        proof {
            use_type_invariant(&*self);
        }
        &mut self.tiles[index]
    }
}

impl<T> Tilemap<T> where T: Tileable {
    /// The tile in column `x` of row `y`, to be changed in place.
    pub fn at_mut(&mut self, x: usize, y: usize) -> (tile: &mut T)
        requires
            x < old(self).grid_width(),
            y < old(self).grid_height(),
        ensures
            *tile == old(self).cell(x as int, y as int),
            final(self)@ == old(self)@.update(
                linear_index(old(self).grid_width() as int, x as int, y as int),
                *final(tile),
            ),
            final(self).grid_width() == old(self).grid_width(),
            final(self).grid_height() == old(self).grid_height(),
    {
        proof {
            use_type_invariant(&*self);
            assert(self.tiles@.len() == self.tiles.len());
            lemma_cell_index_in_grid(
                self.width as int,
                self.height as int,
                x as int,
                y as int,
            );
        }
        &mut self.tiles[y * self.width + x]
    }
}

impl<T> Tilemap<T> where T: Tileable {
    /// Every tile with its column and row, in row-major order from
    /// `(0, 0)` on.
    pub fn indexed_iter(&self) -> (tiles: Vec<(usize, usize, &T)>)
        ensures
            tiles@.len() == self@.len(),
            tiles@.len() == self.grid_width() * self.grid_height(),
            forall|i: int|
                0 <= i < tiles@.len() ==> #[trigger] tiles@[i] == (
                    (i % self.grid_width() as int) as usize,
                    (i / self.grid_width() as int) as usize,
                    &self@[i],
                ),
            forall|x: usize, y: usize|
                x < self.grid_width() && y < self.grid_height() ==> tiles@[#[trigger] linear_index(
                    self.grid_width() as int,
                    x as int,
                    y as int,
                )] == (x, y, &self.cell(x as int, y as int)),
    {
        proof {
            use_type_invariant(self);
            assert forall|x: usize, y: usize| x < self.width && y < self.height implies 0
                <= #[trigger] linear_index(self.width as int, x as int, y as int)
                < self.tiles@.len() && linear_index(self.width as int, x as int, y as int) % (
            self.width as int) == x && linear_index(self.width as int, x as int, y as int) / (
            self.width as int) == y by {
                lemma_cell_index_in_grid(
                    self.width as int,
                    self.height as int,
                    x as int,
                    y as int,
                );
                lemma_linear_index_splits(self.width as int, x as int, y as int);
            }
        }
        let count: usize = self.tiles.len();
        let mut indexed: Vec<(usize, usize, &T)> = Vec::new();
        let mut x: usize = 0;
        let mut y: usize = 0;
        while indexed.len() < count
            invariant
                count == self.tiles@.len(),
                count == self.width * self.height,
                indexed@.len() <= count,
                indexed@.len() == y * self.width + x,
                x < self.width || count == 0,
                y <= self.height,
                forall|i: int|
                    0 <= i < indexed@.len() ==> #[trigger] indexed@[i] == (
                        (i % self.width as int) as usize,
                        (i / self.width as int) as usize,
                        &self.tiles@[i],
                    ),
            decreases count - indexed@.len(),
        {
            let index: usize = indexed.len();
            proof {
                lemma_row_major_position(
                    self.width as int,
                    self.height as int,
                    x as int,
                    y as int,
                );
                lemma_linear_index_splits(self.width as int, x as int, y as int);
            }
            indexed.push((x, y, &self.tiles[index]));
            x = x + 1;
            if x == self.width {
                assert((y + 1) * self.width == y * self.width + self.width) by (nonlinear_arith);
                x = 0;
                y = y + 1;
            }
        }
        indexed
    }

    /// Every tile, to be changed in place, with its column and row, in
    /// row-major order from `(0, 0)` on.
    pub fn indexed_iter_mut(&mut self) -> (tiles: Vec<(usize, usize, &mut T)>)
        ensures
            tiles@.len() == old(self)@.len(),
            forall|i: int|
                0 <= i < tiles@.len() ==> {
                    &&& (#[trigger] tiles@[i]).0 == i % old(self).grid_width() as int
                    &&& tiles@[i].1 == i / old(self).grid_width() as int
                    &&& *tiles@[i].2 == old(self)@[i]
                },
            final(self)@.len() == old(self)@.len(),
            forall|i: int| 0 <= i < tiles@.len() ==> final(self)@[i] == *final(tiles@[i].2),
            final(self).grid_width() == old(self).grid_width(),
            final(self).grid_height() == old(self).grid_height(),
    {
        proof {
            use_type_invariant(&*self);
            if self.width == 0 {
                assert(self.width * self.height == 0) by (nonlinear_arith)
                    requires
                        self.width == 0,
                ;
            }
        }
        let width = self.width;
        indexed_refs_mut(whole_slice_mut(&mut self.tiles), width)
    }
}

impl<U> Tilemap<Option<U>> where U: Tileable {
    /// Empties the cell in column `x` of row `y` and returns what it held.
    pub fn remove(&mut self, x: usize, y: usize) -> (removed: Option<U>)
        requires
            x < old(self).grid_width(),
            y < old(self).grid_height(),
        ensures
            removed == old(self).cell(x as int, y as int),
            final(self)@ == old(self)@.update(
                linear_index(old(self).grid_width() as int, x as int, y as int),
                None,
            ),
            final(self).grid_width() == old(self).grid_width(),
            final(self).grid_height() == old(self).grid_height(),
    {
        self.at_mut(x, y).take()
    }
}

impl<T> Index<[usize; 2]> for Tilemap<T> where T: Tileable {
    type Output = T;

    /// The tile in column `index[0]` of row `index[1]`.
    fn index(&self, index: [usize; 2]) -> (tile: &T)
        ensures
            *tile == self.cell(index[0] as int, index[1] as int),
    {
        let x = index[0];
        let y = index[1];
        proof {
            use_type_invariant(self);
            assert(self.tiles@.len() == self.tiles.len());
            lemma_cell_index_in_grid(
                self.width as int,
                self.height as int,
                x as int,
                y as int,
            );
        }
        &self.tiles[y * self.width + x]
    }
}

impl<T> vstd::std_specs::core::IndexSpecImpl<[usize; 2]> for Tilemap<T> where T: Tileable {
    /// A pair of coordinates may be looked up where it names a cell of the
    /// grid.
    open spec fn index_req(&self, index: &[usize; 2]) -> bool {
        index[0] < self.grid_width() && index[1] < self.grid_height()
    }
}

impl<T> Index<usize> for Tilemap<T> where T: Tileable {
    type Output = T;

    /// The tile at the linear index `index`.
    fn index(&self, index: usize) -> (tile: &T)
        ensures
            *tile == self@[index as int],
    {
        &self.tiles[index]
    }
}

impl<T> vstd::std_specs::core::IndexSpecImpl<usize> for Tilemap<T> where T: Tileable {
    /// A linear index may be looked up where it is below the number of
    /// tiles.
    open spec fn index_req(&self, index: &usize) -> bool {
        *index < self@.len()
    }
}

impl<T> IntoIterator for Tilemap<T> where T: Tileable {
    type Item = T;

    type IntoIter = std::vec::IntoIter<T>;

    fn into_iter(self) -> (iter: Self::IntoIter)
        ensures
            iter.remaining() == self@,
            iter.decrease() is Some,
            iter.initial_value_relation(&iter),
    {
        self.tiles.into_iter()
    }
}

impl<'a, T> IntoIterator for &'a Tilemap<T> where T: Tileable {
    type Item = &'a T;

    type IntoIter = std::slice::Iter<'a, T>;

    fn into_iter(self) -> (iter: Self::IntoIter)
        ensures
            iter.remaining() == self@.as_ref(),
            iter.decrease() is Some,
            iter.initial_value_relation(&iter),
    {
        self.tiles.iter()
    }
}

impl<'a, T> IntoIterator for &'a mut Tilemap<T> where T: Tileable {
    type Item = &'a mut T;

    type IntoIter = std::vec::IntoIter<&'a mut T>;

    /// Every tile, to be changed in place, in row-major order.
    fn into_iter(self) -> (iter: Self::IntoIter)
        ensures
            iter.remaining().len() == old(self)@.len(),
            forall|i: int|
                0 <= i < old(self)@.len() ==> *(#[trigger] iter.remaining()[i]) == old(self)@[i],
            final(self)@.len() == old(self)@.len(),
            forall|i: int|
                0 <= i < old(self)@.len() ==> final(self)@[i] == *final(iter.remaining()[i]),
            final(self).grid_width() == old(self).grid_width(),
            final(self).grid_height() == old(self).grid_height(),
            iter.decrease() is Some,
            iter.initial_value_relation(&iter),
    {
        proof {
            use_type_invariant(&*self);
        }
        let width = self.width;
        let indexed = indexed_refs_mut(whole_slice_mut(&mut self.tiles), width);
        refs_of(indexed).into_iter()
    }
}

/// A tilemap of optional tiles whose cells are clones of the default holds
/// no tile: the default of an optional tile is no tile, and so is every
/// clone of it. That is what [`Tilemap::from_default`] gives for such
/// tiles.
pub proof fn lemma_sparse_default_is_empty<U: Tileable>(
    tilemap: Tilemap<Option<U>>,
    initial: Option<U>,
)
    requires
        call_ensures(Option::<U>::default, (), initial),
        forall|i: int| 0 <= i < tilemap@.len() ==> cloned(initial, #[trigger] tilemap@[i]),
    ensures
        forall|i: int| 0 <= i < tilemap@.len() ==> (#[trigger] tilemap@[i]) is None,
{
}

/// Borrows the whole vector as a slice, `&mut tiles[..]`: std's `IndexMut`
/// of a vector by the full range, which cannot panic. The vector ends as
/// the slice ends, and a slice keeps its length whatever is done to its
/// elements.
#[verifier::external_body]
fn whole_slice_mut<'a, T>(tiles: &'a mut Vec<T>) -> (slice: &'a mut [T])
    ensures
        slice@ == old(tiles)@,
        final(tiles)@ == final(slice)@,
        final(slice)@.len() == slice@.len(),
    no_unwind
{
    &mut tiles[..]
}

/// Splits a slice that holds the tiles of a grid of `width` columns into
/// its elements, each with its column and row.
fn indexed_refs_mut<'a, T>(tiles: &'a mut [T], width: usize) -> (items: Vec<
    (usize, usize, &'a mut T),
>)
    requires
        old(tiles)@.len() > 0 ==> width > 0,
    ensures
        items@.len() == old(tiles)@.len(),
        forall|i: int|
            0 <= i < items@.len() ==> {
                &&& (#[trigger] items@[i]).0 == i % width as int
                &&& items@[i].1 == i / width as int
                &&& *items@[i].2 == old(tiles)@[i]
            },
        final(tiles)@.len() == old(tiles)@.len(),
        forall|i: int| 0 <= i < items@.len() ==> final(tiles)@[i] == *final(items@[i].2),
{
    let ghost finished: Seq<T> = final(tiles)@;
    let mut items: Vec<(usize, usize, &'a mut T)> = Vec::new();
    let mut rest: &'a mut [T] = tiles;
    let mut x: usize = 0;
    let mut y: usize = 0;
    while rest.len() > 0
        invariant
            items@.len() + rest@.len() == old(tiles)@.len(),
            rest@ == old(tiles)@.skip(items@.len() as int),
            old(tiles)@.len() > 0 ==> width > 0,
            rest@.len() > 0 ==> x < width,
            items@.len() == y * width + x,
            y <= items@.len(),
            forall|i: int|
                0 <= i < items@.len() ==> {
                    &&& (#[trigger] items@[i]).0 == i % width as int
                    &&& items@[i].1 == i / width as int
                    &&& *items@[i].2 == old(tiles)@[i]
                },
            finished.len() == items@.len() + final(rest)@.len(),
            forall|i: int| 0 <= i < items@.len() ==> finished[i] == *final(items@[i].2),
            forall|j: int|
                0 <= j < final(rest)@.len() ==> finished[items@.len() + j] == final(rest)@[j],
        decreases rest@.len(),
    {
        let ghost passed = items@;
        let whole = rest;
        let ghost whole_final = final(whole)@;
        let (head, tail) = whole.split_at_mut(1);
        let ghost head_final = final(head)@;
        let ghost tail_final = final(tail)@;
        assert(whole_final == head_final + tail_final);
        let first = head.first_mut().unwrap();
        assert(head_final.len() == 1);
        assert(head_final[0] == *final(first));
        proof {
            lemma_linear_index_splits(width as int, x as int, y as int);
            assert(y * width >= 0) by (nonlinear_arith)
                requires
                    y >= 0,
                    width >= 0,
            ;
        }
        items.push((x, y, first));
        rest = tail;
        proof {
            assert forall|i: int| 0 <= i < items@.len() implies finished[i] == *final(items@[i].2) by {
                if i < passed.len() {
                    assert(items@[i] == passed[i]);
                } else {
                    assert(finished[passed.len() as int] == whole_final[0]);
                }
            }
            assert forall|j: int| 0 <= j < final(rest)@.len() implies finished[items@.len() + j]
                == final(rest)@[j] by {
                assert(finished[passed.len() as int + (j + 1)] == whole_final[j + 1]);
                assert(whole_final[j + 1] == tail_final[j]);
            }
        }
        x = x + 1;
        if x == width {
            assert((y + 1) * width == y * width + width) by (nonlinear_arith);
            assert(y + 1 <= (y + 1) * width) by (nonlinear_arith)
                requires
                    width >= 1,
            ;
            assert(items@.len() == items.len());
            x = 0;
            y = y + 1;
        }
    }
    items
}

/// Drops the columns and rows and keeps the tiles, in their order.
fn refs_of<'a, T>(indexed: Vec<(usize, usize, &'a mut T)>) -> (tiles: Vec<&'a mut T>)
    ensures
        tiles@.len() == indexed@.len(),
        forall|i: int|
            0 <= i < tiles@.len() ==> {
                &&& *(#[trigger] tiles@[i]) == *indexed@[i].2
                &&& *final(tiles@[i]) == *final(indexed@[i].2)
            },
{
    let ghost all = indexed@;
    let mut tiles: Vec<&'a mut T> = Vec::new();
    for item in iter: indexed
        invariant
            iter.seq() == all,
            tiles@.len() == iter.index(),
            forall|i: int|
                0 <= i < tiles@.len() ==> {
                    &&& *(#[trigger] tiles@[i]) == *all[i].2
                    &&& *final(tiles@[i]) == *final(all[i].2)
                },
    {
        let ghost before = tiles@;
        assert(item == all[iter.index() as int]);
        tiles.push(item.2);
        assert forall|i: int| 0 <= i < tiles@.len() implies {
            &&& *(#[trigger] tiles@[i]) == *all[i].2
            &&& *final(tiles@[i]) == *final(all[i].2)
        } by {
            if i < before.len() {
                assert(tiles@[i] == before[i]);
            }
        }
    }
    tiles
}

/// While fewer than `w * h` cells of a grid have been passed row by row,
/// the position `(x, y)` that comes next, with `x < w`, lies in the grid.
proof fn lemma_row_major_position(w: int, h: int, x: int, y: int)
    requires
        0 <= x,
        0 <= y <= h,
        0 <= w,
        x < w || w * h == 0,
        y * w + x < w * h,
    ensures
        x < w,
        y < h,
{
    if y >= h {
        assert(y * w + x >= w * h) by (nonlinear_arith)
            requires
                y >= h,
                w >= 0,
                x >= 0,
        ;
    }
    if x >= w {
        assert(y * w + x >= 0) by (nonlinear_arith)
            requires
                y >= 0,
                w >= 0,
                x >= 0,
        ;
    }
}

/// Two columns of a grid of width `w` that have the same linear index in
/// their rows are the same column of the same row.
proof fn lemma_row_major_unique(w: int, x1: int, y1: int, x2: int, y2: int)
    requires
        0 <= x1 < w,
        0 <= x2 < w,
        0 <= y1,
        0 <= y2,
        y1 * w + x1 == y2 * w + x2,
    ensures
        x1 == x2,
        y1 == y2,
{
    if y1 < y2 {
        assert(y2 * w >= y1 * w + w) by (nonlinear_arith)
            requires
                y1 < y2,
                w > 0,
        ;
    } else if y2 < y1 {
        assert(y1 * w >= y2 * w + w) by (nonlinear_arith)
            requires
                y2 < y1,
                w > 0,
        ;
    }
}

} // verus!
