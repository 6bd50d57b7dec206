//! The flat, row-major grid model: well-formedness, coordinate arithmetic,
//! and the lemmas that connect flat indices to `(row, col)` pairs.

use vstd::prelude::*;

verus! {

/// A raw grid is well formed when it has exactly `rows * cols` cells, each
/// holding 0 (dead) or 1 (alive).
pub open spec fn grid_wf(g: Seq<u8>, rows: int, cols: int) -> bool {
    &&& rows >= 0
    &&& cols >= 0
    &&& g.len() == rows * cols
    &&& forall|i: int| 0 <= i < g.len() ==> g[i] == 0 || g[i] == 1
}

/// The raw state stored for the cell at `(r, c)` of a row-major grid.
pub open spec fn at(g: Seq<u8>, cols: int, r: int, c: int) -> u8 {
    g[r * cols + c]
}

/// A coordinate pair inside the grid maps to a flat index inside the grid.
pub proof fn lemma_grid_index(rows: int, cols: int, r: int, c: int)
    by (nonlinear_arith)
    requires
        0 <= r < rows,
        0 <= c < cols,
    ensures
        0 <= r * cols + c < rows * cols,
{
}

/// A grid with at least one cell has at least one row and one column.
pub proof fn lemma_dims_positive(rows: int, cols: int)
    by (nonlinear_arith)
    requires
        rows >= 0,
        cols >= 0,
        rows * cols > 0,
    ensures
        rows > 0,
        cols > 0,
{
}

/// Splitting a flat index `i` into `(i / cols, i % cols)` lands inside the
/// grid, and the pair reassembles to `i`.
pub proof fn lemma_index_coords(rows: int, cols: int, i: int)
    requires
        cols > 0,
        0 <= i < rows * cols,
    ensures
        0 <= i / cols < rows,
        0 <= i % cols < cols,
        (i / cols) * cols + i % cols == i,
{
    vstd::arithmetic::div_mod::lemma_fundamental_div_mod(i, cols);
    vstd::arithmetic::div_mod::lemma_mod_division_less_than_divisor(i, cols);
    vstd::arithmetic::div_mod::lemma_div_pos_is_pos(i, cols);
    vstd::arithmetic::mul::lemma_mul_is_commutative(cols, i / cols);
    vstd::arithmetic::mul::lemma_mul_is_commutative(cols, rows);
    vstd::arithmetic::div_mod::lemma_multiply_divide_lt(i, cols, rows);
}

/// Splits a flat row-major index into its `(row, col)` pair.
pub fn to_coord(i: usize, cols: usize) -> (rc: (usize, usize))
    requires
        cols > 0,
    ensures
        rc.0 == i as int / cols as int,
        rc.1 == i as int % cols as int,
{
    (i / cols, i % cols)
}

/// Reads the cell at `(r, c)` of a row-major grid.
pub fn vec_at(g: &Vec<u8>, cols: usize, r: usize, c: usize) -> (v: u8)
    requires
        (r as int) * (cols as int) + (c as int) < g@.len(),
    ensures
        v == at(g@, cols as int, r as int, c as int),
{
    let n = g.len();
    proof {
        assert((r as int) * (cols as int) + (c as int) < n as int);
    }
    g[r * cols + c]
}

} // verus!
