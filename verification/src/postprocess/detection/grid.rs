//! The grid of cells that a detection head lays over an image.
use vstd::arithmetic::div_mod::{
    lemma_fundamental_div_mod, lemma_fundamental_div_mod_converse,
};
use vstd::prelude::*;

verus! {

/// A grid whose cells are squares with a whole number of pixels to a side, and
/// whose rows fill the width of the image.
#[derive(Clone, Copy, Debug)]
pub struct Grid {
    /// The side of a cell, in pixels.
    pub stride: u32,
    /// How many cells make a row.
    pub columns: u32,
}

/// The number of pixels that each of `spots` spots stands for in an image, in
/// whole pixels. The side of a cell is the square root of it.
pub open spec fn pixels_per_spot(width: int, height: int, spots: int) -> int {
    width * height / spots
}

/// Whether cells of `stride` by `stride` pixels have `area` pixels each, and
/// `columns` of them fill a row.
pub open spec fn is_grid(width: int, area: int, stride: int, columns: int) -> bool {
    &&& 0 < stride
    &&& 0 < columns
    &&& stride * stride == area
    &&& columns * stride == width
}

/// The column and the row of a spot, where rows have `columns` cells.
pub open spec fn cell_of(spot: int, columns: int) -> (int, int) {
    (spot % columns, spot / columns)
}

impl Grid {
    /// Whether this is the grid of cells of `area` pixels on an image of the
    /// given width.
    pub open spec fn fits(self, width: int, area: int) -> bool {
        is_grid(width, area, self.stride as int, self.columns as int)
    }

    /// Finds the grid of cells of `area` pixels on an image of the given width,
    /// if there is one.
    pub fn find(width: u32, area: u32) -> (r: Option<Grid>)
        ensures
            match r {
                Some(grid) => grid.fits(width as int, area as int),
                None => forall|stride: int, columns: int|
                    !is_grid(width as int, area as int, stride, columns),
            },
    {
        let stride = square_root(area);
        proof {
            assert forall|other: int, columns: int|
                is_grid(width as int, area as int, other, columns) implies {
                &&& other == stride
                &&& stride * stride == area
                &&& width as int % stride as int == 0
                &&& columns == width as int / stride as int
            } by {
                square_root_is_unique(area as int, other, stride as int);
                lemma_fundamental_div_mod_converse(width as int, other, columns, 0);
            }
        }
        if stride == 0 || stride as u64 * stride as u64 != area as u64 || width % stride != 0 {
            return None;
        }
        let columns: u32 = width / stride;
        proof {
            lemma_fundamental_div_mod(width as int, stride as int);
            assert(stride * columns == columns * stride) by (nonlinear_arith);
        }
        if columns == 0 {
            return None;
        }
        Some(Grid { stride, columns })
    }

    /// The column and the row of a spot.
    pub fn cell(&self, spot: usize) -> (r: (usize, usize))
        requires
            0 < self.columns,
        ensures
            (r.0 as int, r.1 as int) == cell_of(spot as int, self.columns as int),
    {
        (spot % self.columns as usize, spot / self.columns as usize)
    }
}

/// The square root of `n`, rounded down.
pub fn square_root(n: u32) -> (r: u32)
    ensures
        r * r <= n < (r + 1) * (r + 1),
{
    let mut low: u64 = 0;
    let mut high: u64 = 65536;
    while high - low > 1
        invariant
            low < high <= 65536,
            low * low <= n < high * high,
        decreases high - low,
    {
        let middle: u64 = low + (high - low) / 2;
        assert(middle * middle <= 65536 * 65536) by (nonlinear_arith)
            requires
                middle <= 65536,
        ;
        if middle * middle <= n as u64 {
            low = middle;
        } else {
            high = middle;
        }
    }
    low as u32
}

/// A number is the square of no other number than its square root.
proof fn square_root_is_unique(n: int, root: int, floor: int)
    by (nonlinear_arith)
    requires
        0 < root,
        0 <= floor,
        root * root == n,
        floor * floor <= n < (floor + 1) * (floor + 1),
    ensures
        root == floor,
        floor * floor == n,
{
    if root < floor {
        assert(root * root < floor * floor);
    }
    if floor < root {
        assert((floor + 1) * (floor + 1) <= root * root);
    }
}

/// The cells of `stride` by `stride` pixels that tile an image are found from
/// the size of the image and the number of the cells.
pub proof fn tiling_is_recovered(stride: int, columns: int, rows: int)
    requires
        0 < stride,
        0 < columns,
        0 < rows,
    ensures
        ({
            let (width, height) = (columns * stride, rows * stride);
            let area = pixels_per_spot(width, height, columns * rows);
            &&& area == stride * stride
            &&& is_grid(width, area, stride, columns)
        }),
{
    let (width, height) = (columns * stride, rows * stride);
    assert(columns * rows > 0) by (nonlinear_arith)
        requires
            0 < columns,
            0 < rows,
    ;
    assert(width * height == (columns * rows) * (stride * stride)) by (nonlinear_arith)
        requires
            width == columns * stride,
            height == rows * stride,
    ;
    lemma_fundamental_div_mod_converse(width * height, columns * rows, stride * stride, 0);
}

/// An image has at most one grid of cells of a given area.
pub proof fn grid_is_unique(width: int, area: int, a: Grid, b: Grid)
    requires
        a.fits(width, area),
        b.fits(width, area),
    ensures
        a == b,
{
    let (s, t) = (a.stride as int, b.stride as int);
    assert(s == t) by (nonlinear_arith)
        requires
            0 < s,
            0 < t,
            s * s == t * t,
    {
        if s < t {
            assert(s * s < t * t);
        }
        if t < s {
            assert(t * t < s * s);
        }
    }
    lemma_fundamental_div_mod_converse(width, s, a.columns as int, 0);
    lemma_fundamental_div_mod_converse(width, s, b.columns as int, 0);
}

/// The cell of a spot lies in a column of the grid, starts inside the image, and
/// is the cell of no other spot.
pub proof fn cells_start_inside_the_image(
    width: int,
    height: int,
    spots: int,
    grid: Grid,
    spot: int,
)
    requires
        0 <= width,
        0 <= height,
        0 <= spot < spots,
        grid.fits(width, pixels_per_spot(width, height, spots)),
    ensures
        ({
            let (column, row) = cell_of(spot, grid.columns as int);
            &&& 0 <= column < grid.columns
            &&& 0 <= row
            &&& 0 <= column * grid.stride < width
            &&& 0 <= row * grid.stride < height
            &&& spot == row * grid.columns + column
        }),
{
    let (stride, columns) = (grid.stride as int, grid.columns as int);
    let area = pixels_per_spot(width, height, spots);
    let (column, row) = cell_of(spot, columns);
    lemma_fundamental_div_mod(spot, columns);
    lemma_fundamental_div_mod(width * height, spots);
    assert(columns * row == row * columns) by (nonlinear_arith);
    assert(row >= 0) by (nonlinear_arith)
        requires
            spot == columns * row + column,
            0 <= column < columns,
            0 <= spot,
    ;
    assert(0 <= column * stride < width) by (nonlinear_arith)
        requires
            0 <= column < columns,
            0 < stride,
            columns * stride == width,
    ;
    // Every spot stands for `area` pixels, and all of them together for no more
    // than the image has.
    assert(spots * area <= width * height);
    assert(0 <= row * stride) by (nonlinear_arith)
        requires
            0 <= row,
            0 < stride,
    ;
    assert(row * stride < height) by (nonlinear_arith)
        requires
            spot == columns * row + column,
            0 <= column,
            spot < spots,
            0 < stride,
            0 < columns,
            stride * stride == area,
            columns * stride == width,
            spots * area <= width * height,
    {
        assert(columns * row < spots);
        assert((columns * row) * (stride * stride) < spots * (stride * stride));
        assert((columns * row) * (stride * stride) == (columns * stride) * (row * stride));
        assert(width * (row * stride) < width * height);
    }
}

/// The share of a spot is the greatest whole number of pixels of which every
/// spot can have as many.
pub proof fn shares_use_up_the_image(width: int, height: int, spots: int)
    requires
        0 < spots,
    ensures
        ({
            let area = pixels_per_spot(width, height, spots);
            area * spots <= width * height < (area + 1) * spots
        }),
{
    let area = pixels_per_spot(width, height, spots);
    lemma_fundamental_div_mod(width * height, spots);
    assert(spots * area == area * spots) by (nonlinear_arith);
    assert((area + 1) * spots == area * spots + spots) by (nonlinear_arith);
}

/// The cells of a grid are squares of the given area, and a row of them is as
/// wide as the image.
pub proof fn grids_are_rows_of_squares(width: int, area: int, grid: Grid, stride: int, columns: int)
    ensures
        grid.fits(width, area) <==> (0 < grid.stride && 0 < grid.columns && grid.stride
            * grid.stride == area && grid.columns * grid.stride == width),
        is_grid(width, area, stride, columns) <==> (0 < stride && 0 < columns && stride * stride
            == area && columns * stride == width),
{
}

/// Cells are counted along the rows, from the first row on.
pub proof fn cells_are_counted_along_rows(spot: int, columns: int, column: int, row: int)
    requires
        0 < columns,
        0 <= column < columns,
        spot == row * columns + column,
    ensures
        cell_of(spot, columns) == (column, row),
{
    lemma_fundamental_div_mod_converse(spot, columns, row, column);
}

} // verus!
