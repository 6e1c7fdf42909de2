//! How pixel dimensions and a cell size give the shape of the grid.
use vstd::prelude::*;
use vstd::arithmetic::div_mod::{lemma_div_is_ordered_by_denominator, lemma_fundamental_div_mod};

verus! {

/// Number of columns for a viewport `width` pixels wide: one more than the
/// number of whole cells that fit, so the grid always covers the viewport.
pub open spec fn columns_of(width: u32, cell: u32) -> int {
    width as int / cell as int + 1
}

/// Number of rows for a viewport `height` pixels high.
pub open spec fn rows_of(height: u32, cell: u32) -> int {
    height as int / cell as int + 1
}

pub open spec fn cell_count_of(width: u32, height: u32, cell: u32) -> int {
    columns_of(width, cell) * rows_of(height, cell)
}

/// The configurations the engine accepts: a positive cell size and a grid
/// whose number of cells fits in a `u32`.
pub open spec fn grid_fits(width: u32, height: u32, cell: u32) -> bool {
    cell > 0 && cell_count_of(width, height, cell) <= u32::MAX
}

/// Both factors of a product of positive integers are at most the product.
pub proof fn lemma_factor_le_product(a: int, b: int)
    requires
        a >= 1,
        b >= 1,
    ensures
        a <= a * b,
        b <= a * b,
{
    assert(a <= a * b && b <= a * b) by (nonlinear_arith)
        requires
            a >= 1,
            b >= 1,
    ;
}

/// The cell `(col, row)` of a `cols`-wide grid of `rows` rows has a linear
/// index inside the grid.
pub proof fn lemma_index_in_grid(col: int, row: int, cols: int, rows: int)
    requires
        0 <= col < cols,
        0 <= row < rows,
    ensures
        0 <= col + cols * row < cols * rows,
        row + 1 < rows ==> col + cols * row < cols * rows - cols,
        row + 1 == rows ==> col + cols * row >= cols * rows - cols,
{
    assert(0 <= col + cols * row < cols * rows) by (nonlinear_arith)
        requires
            0 <= col < cols,
            0 <= row < rows,
    ;
    assert(row + 1 < rows ==> col + cols * row < cols * rows - cols) by (nonlinear_arith)
        requires
            0 <= col < cols,
            0 <= row < rows,
    ;
    assert(row + 1 == rows ==> col + cols * row >= cols * rows - cols) by (nonlinear_arith)
        requires
            0 <= col < cols,
            0 <= row < rows,
    ;
}

/// A larger cell size never gives more cells.
pub proof fn lemma_larger_cells_fewer(width: u32, height: u32, small: u32, large: u32)
    requires
        1 <= small <= large,
    ensures
        columns_of(width, large) <= columns_of(width, small),
        rows_of(height, large) <= rows_of(height, small),
        cell_count_of(width, height, large) <= cell_count_of(width, height, small),
{
    lemma_div_is_ordered_by_denominator(width as int, small as int, large as int);
    lemma_div_is_ordered_by_denominator(height as int, small as int, large as int);
    let (a, b) = (columns_of(width, large), rows_of(height, large));
    let (c, d) = (columns_of(width, small), rows_of(height, small));
    assert(a * b <= c * d) by (nonlinear_arith)
        requires
            1 <= a <= c,
            1 <= b <= d,
    ;
}

/// A cell that lies within the viewport's whole cells starts at a pixel
/// offset inside the viewport.
pub proof fn lemma_cell_offset(n: int, extent: u32, cell: u32)
    requires
        cell > 0,
        0 <= n < extent as int / cell as int + 1,
    ensures
        0 <= n * cell <= extent,
{
    lemma_fundamental_div_mod(extent as int, cell as int);
    let q = extent as int / cell as int;
    assert(0 <= n * cell <= cell * q) by (nonlinear_arith)
        requires
            0 <= n <= q,
            cell > 0,
    ;
}

/// The number of cells for a configuration, or `None` where the cell size is
/// zero or the count does not fit in a `u32`.
pub fn grid_cells(width: u32, height: u32, cell: u32) -> (r: Option<u32>)
    ensures
        r == (if grid_fits(width, height, cell) {
            Some(cell_count_of(width, height, cell) as u32)
        } else {
            None::<u32>
        }),
{
    if cell == 0 {
        return None;
    }
    let cols: u64 = (width / cell) as u64 + 1;
    let rows: u64 = (height / cell) as u64 + 1;
    if cols > u32::MAX as u64 || rows > u32::MAX as u64 {
        proof {
            lemma_factor_le_product(cols as int, rows as int);
        }
        return None;
    }
    assert(cols * rows <= u32::MAX as int * u32::MAX as int) by (nonlinear_arith)
        requires
            1 <= cols <= u32::MAX,
            1 <= rows <= u32::MAX,
    ;
    let n: u64 = cols * rows;
    if n > u32::MAX as u64 {
        None
    } else {
        Some(n as u32)
    }
}

} // verus!
