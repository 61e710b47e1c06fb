//! Row-major layout: how a cell `(row, col)` and its place in the backing
//! sequence determine each other.

use vstd::arithmetic::div_mod::{lemma_fundamental_div_mod, lemma_fundamental_div_mod_converse};
use vstd::prelude::*;

verus! {

/// A cell of a grid with `cols` columns lies inside the backing sequence, and
/// its place there gives the cell back.
pub proof fn lemma_cell_place(rows: int, cols: int, row: int, col: int)
    requires
        0 <= row < rows,
        0 <= col < cols,
    ensures
        0 <= row * cols <= row * cols + col < rows * cols,
        (row * cols + col) / cols == row,
        (row * cols + col) % cols == col,
{
    assert(0 <= row * cols) by (nonlinear_arith)
        requires
            0 <= row,
            0 <= cols,
    ;
    assert(row * cols + cols <= rows * cols) by (nonlinear_arith)
        requires
            row + 1 <= rows,
            0 <= cols,
    ;
    lemma_fundamental_div_mod_converse(row * cols + col, cols, row, col);
}

/// A place in the backing sequence of a `rows` by `cols` grid is the place of
/// exactly one cell.
pub proof fn lemma_place_cell(rows: int, cols: int, place: int)
    requires
        0 <= rows,
        0 <= cols,
        0 <= place < rows * cols,
    ensures
        0 < cols,
        0 <= place / cols < rows,
        0 <= place % cols < cols,
        place == (place / cols) * cols + place % cols,
{
    assert(cols != 0) by (nonlinear_arith)
        requires
            0 <= place < rows * cols,
    ;
    lemma_fundamental_div_mod(place, cols);
    let q = place / cols;
    let r = place % cols;
    assert(cols * q == q * cols) by (nonlinear_arith);
    assert(0 <= q) by (nonlinear_arith)
        requires
            place == q * cols + r,
            0 <= place,
            r < cols,
            0 < cols,
    ;
    assert(q < rows) by (nonlinear_arith)
        requires
            place == q * cols + r,
            place < rows * cols,
            0 <= r,
            0 < cols,
    ;
}

} // verus!
