use vstd::prelude::*;

verus! {

/// The linear index of column `x` in row `y` of a grid of `width` columns
/// that is stored row by row.
pub open spec fn linear_index(width: int, x: int, y: int) -> int {
    y * width + x
}

/// A rectangular grid of cells stored row by row: the cell in column `x` of
/// row `y` has the linear index `y * width + x`.
pub trait IndexableGrid {
    /// Number of columns.
    spec fn grid_width(&self) -> usize;

    /// Number of rows.
    spec fn grid_height(&self) -> usize;

    /// The number of columns. A grid that can be asked for its extents
    /// has cells that a `usize` can count.
    fn width(&self) -> (w: usize)
        ensures
            w == self.grid_width(),
            self.grid_width() * self.grid_height() <= usize::MAX,
    ;

    /// The number of rows.
    fn height(&self) -> (h: usize)
        ensures
            h == self.grid_height(),
            self.grid_width() * self.grid_height() <= usize::MAX,
    ;

    /// Linear index of column `x` in row `y`. The coordinates are not
    /// checked against the grid: the result is `y * width + x` for any pair
    /// whose index fits in `usize`.
    fn index_grid(&self, x: usize, y: usize) -> (index: usize)
        requires
            linear_index(self.grid_width() as int, x as int, y as int) <= usize::MAX,
        ensures
            index == linear_index(self.grid_width() as int, x as int, y as int),
    {
        y * self.width() + x
    }

    /// Linear index of column `x` in row `y` if that cell lies in the grid,
    /// `None` otherwise.
    fn index_grid_checked(&self, x: usize, y: usize) -> (index: Option<usize>)
        ensures
            index == if x < self.grid_width() && y < self.grid_height() {
                Some(linear_index(self.grid_width() as int, x as int, y as int) as usize)
            } else {
                None
            },
            index matches Some(i) ==> i < self.grid_width() * self.grid_height(),
    {
        let w = self.width();
        let h = self.height();
        if x < w && y < h {
            proof {
                lemma_cell_index_in_grid(w as int, h as int, x as int, y as int);
            }
            Some(self.index_grid(x, y))
        } else {
            None
        }
    }
}

/// In a grid of `w` columns and `h` rows, the linear index of an in-range
/// cell is below the number of cells.
pub proof fn lemma_cell_index_in_grid(w: int, h: int, x: int, y: int)
    requires
        0 <= x < w,
        0 <= y < h,
    ensures
        0 <= linear_index(w, x, y) < w * h,
{
    assert(y * w + x < w * h) by (nonlinear_arith)
        requires
            0 <= x < w,
            0 <= y < h,
    {
        assert((h - 1 - y) * w >= 0);
        assert(w * h == y * w + w + (h - 1 - y) * w);
    }
    assert(0 <= y * w) by (nonlinear_arith)
        requires
            0 <= y,
            0 < w,
    ;
}

/// The linear index of column `x` in row `y` of a grid of `w` columns
/// splits back into the column, its remainder by `w`, and the row, its
/// quotient by `w`.
pub proof fn lemma_linear_index_splits(w: int, x: int, y: int)
    requires
        0 <= x < w,
        0 <= y,
    ensures
        linear_index(w, x, y) % w == x,
        linear_index(w, x, y) / w == y,
{
    vstd::arithmetic::div_mod::lemma_fundamental_div_mod_converse(y * w + x, w, y, x);
}

} // verus!
