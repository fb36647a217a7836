//! Row-major index arithmetic shared by the neighbourhood filters.

use vstd::prelude::*;
use vstd::arithmetic::div_mod::lemma_fundamental_div_mod_converse;

verus! {

/// Flat index `y * w + x` decomposes back into row `y` and column `x`.
pub proof fn lemma_row_major(w: int, y: int, x: int)
    requires
        w > 0,
        0 <= x < w,
    ensures
        (y * w + x) / w == y,
        (y * w + x) % w == x,
{
    lemma_fundamental_div_mod_converse(y * w + x, w, y, x);
}

/// A cell of a `w` by `h` grid has a flat index below `w * h`, and the
/// rows before row `y + 1` end where row `y + 1` starts.
pub proof fn lemma_cell_in_grid(w: int, h: int, y: int, x: int)
    requires
        0 <= y < h,
        0 <= x < w,
    ensures
        0 <= y * w,
        y * w + x < w * h,
        y * w + w <= w * h,
        (y + 1) * w == y * w + w,
{
    assert(0 <= y * w) by (nonlinear_arith)
        requires
            0 <= y,
            0 <= x < w,
    ;
    assert(y * w + w <= w * h) by (nonlinear_arith)
        requires
            0 <= y < h,
            0 <= x < w,
    ;
    assert((y + 1) * w == y * w + w) by (nonlinear_arith);
}

/// Every flat index below `w * h` names a cell of the grid.
pub proof fn lemma_index_in_grid(w: int, h: int, i: int)
    requires
        w > 0,
        0 <= i < w * h,
    ensures
        0 <= i / w < h,
        0 <= i % w < w,
        i == (i / w) * w + i % w,
{
    vstd::arithmetic::div_mod::lemma_fundamental_div_mod(i, w);
    assert(i / w >= 0) by (nonlinear_arith)
        requires
            w > 0,
            i >= 0,
            i == w * (i / w) + i % w,
            0 <= i % w < w,
    ;
    assert(i / w < h) by (nonlinear_arith)
        requires
            w > 0,
            i < w * h,
            i == w * (i / w) + i % w,
            0 <= i % w < w,
    ;
    assert((i / w) * w == w * (i / w)) by (nonlinear_arith);
}

} // verus!
