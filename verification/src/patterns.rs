//! Classic patterns proved against the kernel: the 2x2 block still life and
//! the period-2 blinker.

use crate::engine::{evolved, lemma_evolved_at, lemma_evolved_wf, live, neighbor_count, next_cell};
use crate::grid::{at, grid_wf, lemma_dims_positive, lemma_grid_index, lemma_index_coords};
use vstd::prelude::*;

verus! {

/// The four coordinates of a 2x2 block anchored at `(r, c)`.
pub open spec fn in_block(r: int, c: int, a: int, b: int) -> bool {
    r <= a <= r + 1 && c <= b <= c + 1
}

/// A grid whose live cells are exactly the 2x2 block anchored at `(r, c)`.
pub open spec fn block_grid(g: Seq<u8>, rows: int, cols: int, r: int, c: int) -> bool {
    forall|a: int, b: int|
        0 <= a < rows && 0 <= b < cols ==> (#[trigger] at(g, cols, a, b) == 1 <==> in_block(
            r,
            c,
            a,
            b,
        ))
}

/// Block invariance: a 2x2 block of live cells with a dead ring around it is
/// a still life; one tick leaves the grid unchanged.
pub proof fn lemma_block_still_life(g: Seq<u8>, rows: int, cols: int, r: int, c: int)
    requires
        grid_wf(g, rows, cols),
        rows >= 4,
        cols >= 4,
        1 <= r && r + 1 <= rows - 2,
        1 <= c && c + 1 <= cols - 2,
        block_grid(g, rows, cols, r, c),
    ensures
        evolved(g, rows, cols) == g,
{
    let e = evolved(g, rows, cols);
    assert forall|i: int| 0 <= i < g.len() implies e[i] == g[i] by {
        lemma_dims_positive(rows, cols);
        lemma_index_coords(rows, cols, i);
        let a = i / (cols as int);
        let b = i % (cols as int);
        lemma_grid_index(rows, cols, a, b);
        assert(e[i] == next_cell(g, rows, cols, a, b));
    }
    assert(e =~= g);
}

/// A horizontal run of three live cells centred at `(r, c)`.
pub open spec fn in_blinker_h(r: int, c: int, a: int, b: int) -> bool {
    a == r && c - 1 <= b <= c + 1
}

/// A vertical run of three live cells centred at `(r, c)`.
pub open spec fn in_blinker_v(r: int, c: int, a: int, b: int) -> bool {
    b == c && r - 1 <= a <= r + 1
}

/// A grid whose live cells are exactly the horizontal blinker at `(r, c)`.
pub open spec fn blinker_h_grid(g: Seq<u8>, rows: int, cols: int, r: int, c: int) -> bool {
    forall|a: int, b: int|
        0 <= a < rows && 0 <= b < cols ==> (#[trigger] at(g, cols, a, b) == 1 <==> in_blinker_h(
            r,
            c,
            a,
            b,
        ))
}

/// A grid whose live cells are exactly the vertical blinker at `(r, c)`.
pub open spec fn blinker_v_grid(g: Seq<u8>, rows: int, cols: int, r: int, c: int) -> bool {
    forall|a: int, b: int|
        0 <= a < rows && 0 <= b < cols ==> (#[trigger] at(g, cols, a, b) == 1 <==> in_blinker_v(
            r,
            c,
            a,
            b,
        ))
}

/// One tick turns a horizontal blinker whose 3x3 bounding box is surrounded
/// by dead cells into the vertical blinker at the same centre.
proof fn lemma_blinker_h_to_v(g: Seq<u8>, rows: int, cols: int, r: int, c: int)
    requires
        grid_wf(g, rows, cols),
        rows >= 5,
        cols >= 5,
        2 <= r && r <= rows - 3,
        2 <= c && c <= cols - 3,
        blinker_h_grid(g, rows, cols, r, c),
    ensures
        grid_wf(evolved(g, rows, cols), rows, cols),
        blinker_v_grid(evolved(g, rows, cols), rows, cols, r, c),
{
    let e = evolved(g, rows, cols);
    lemma_evolved_wf(g, rows, cols);
    assert forall|a: int, b: int| 0 <= a < rows && 0 <= b < cols implies (#[trigger] at(
        e,
        cols,
        a,
        b,
    ) == 1 <==> in_blinker_v(r, c, a, b)) by {
        lemma_evolved_at(g, rows, cols, a, b);
        assert(at(e, cols, a, b) == next_cell(g, rows, cols, a, b));
    }
}

/// One tick turns a vertical blinker whose 3x3 bounding box is surrounded by
/// dead cells into the horizontal blinker at the same centre.
proof fn lemma_blinker_v_to_h(g: Seq<u8>, rows: int, cols: int, r: int, c: int)
    requires
        grid_wf(g, rows, cols),
        rows >= 5,
        cols >= 5,
        2 <= r && r <= rows - 3,
        2 <= c && c <= cols - 3,
        blinker_v_grid(g, rows, cols, r, c),
    ensures
        grid_wf(evolved(g, rows, cols), rows, cols),
        blinker_h_grid(evolved(g, rows, cols), rows, cols, r, c),
{
    let e = evolved(g, rows, cols);
    lemma_evolved_wf(g, rows, cols);
    assert forall|a: int, b: int| 0 <= a < rows && 0 <= b < cols implies (#[trigger] at(
        e,
        cols,
        a,
        b,
    ) == 1 <==> in_blinker_h(r, c, a, b)) by {
        lemma_evolved_at(g, rows, cols, a, b);
        assert(at(e, cols, a, b) == next_cell(g, rows, cols, a, b));
    }
}

/// Two well-formed grids with the same live cells are the same grid.
proof fn lemma_same_live_cells_eq(g1: Seq<u8>, g2: Seq<u8>, rows: int, cols: int)
    requires
        grid_wf(g1, rows, cols),
        grid_wf(g2, rows, cols),
        forall|a: int, b: int|
            0 <= a < rows && 0 <= b < cols ==> (#[trigger] at(g1, cols, a, b) == 1 <==> #[trigger] at(
                g2,
                cols,
                a,
                b,
            ) == 1),
    ensures
        g1 == g2,
{
    assert forall|i: int| 0 <= i < g1.len() implies g1[i] == g2[i] by {
        lemma_dims_positive(rows, cols);
        lemma_index_coords(rows, cols, i);
        let a = i / (cols as int);
        let b = i % (cols as int);
        lemma_grid_index(rows, cols, a, b);
        assert(g1[i] == at(g1, cols, a, b));
        assert(g2[i] == at(g2, cols, a, b));
    }
    assert(g1 =~= g2);
}

/// Blinker oscillation: a horizontal blinker away from every edge becomes the
/// vertical blinker at the same centre after one tick, and is back after two.
pub proof fn lemma_blinker_oscillates(g: Seq<u8>, rows: int, cols: int, r: int, c: int)
    requires
        grid_wf(g, rows, cols),
        rows >= 5,
        cols >= 5,
        2 <= r && r <= rows - 3,
        2 <= c && c <= cols - 3,
        blinker_h_grid(g, rows, cols, r, c),
    ensures
        blinker_v_grid(evolved(g, rows, cols), rows, cols, r, c),
        evolved(evolved(g, rows, cols), rows, cols) == g,
{
    let e = evolved(g, rows, cols);
    lemma_blinker_h_to_v(g, rows, cols, r, c);
    lemma_blinker_v_to_h(e, rows, cols, r, c);
    lemma_same_live_cells_eq(evolved(e, rows, cols), g, rows, cols);
}

} // verus!
