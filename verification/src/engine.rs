//! The evolution kernel: the B3/S23 rule, edge-clamped neighbour counting,
//! a sequential tick, and the same tick as a data-parallel map.

use crate::grid::{at, grid_wf, lemma_dims_positive, lemma_grid_index, lemma_index_coords,
    to_coord, vec_at};
use rayon::iter::{IndexedParallelIterator, IntoParallelIterator, ParallelIterator};
use vstd::prelude::*;

verus! {

/// 1 when `(r, c)` lies inside the grid and holds a live cell, else 0;
/// positions outside the grid count as dead (hard, non-wrapping edges).
pub open spec fn live(g: Seq<u8>, rows: int, cols: int, r: int, c: int) -> int {
    if 0 <= r < rows && 0 <= c < cols && at(g, cols, r, c) == 1 {
        1
    } else {
        0
    }
}

/// The number of live cells among the 8 Moore neighbours of `(r, c)`,
/// enumerating exactly the canonical offsets
/// (-1,-1), (-1,0), (-1,1), (0,-1), (0,1), (1,-1), (1,0), (1,1).
pub open spec fn neighbor_count(g: Seq<u8>, rows: int, cols: int, r: int, c: int) -> int {
    live(g, rows, cols, r - 1, c - 1) + live(g, rows, cols, r - 1, c) + live(
        g,
        rows,
        cols,
        r - 1,
        c + 1,
    ) + live(g, rows, cols, r, c - 1) + live(g, rows, cols, r, c + 1) + live(
        g,
        rows,
        cols,
        r + 1,
        c - 1,
    ) + live(g, rows, cols, r + 1, c) + live(g, rows, cols, r + 1, c + 1)
}

/// The B3/S23 rule for one cell: a live cell survives with 2 or 3 live
/// neighbours, a dead cell is born with exactly 3.
pub open spec fn next_cell(g: Seq<u8>, rows: int, cols: int, r: int, c: int) -> u8 {
    let n = neighbor_count(g, rows, cols, r, c);
    if at(g, cols, r, c) == 1 {
        if n == 2 || n == 3 {
            1u8
        } else {
            0u8
        }
    } else {
        if n == 3 {
            1u8
        } else {
            0u8
        }
    }
}

/// The whole next generation: cell `i` of the result is the rule applied at
/// `(i / cols, i % cols)` of the input snapshot.
pub open spec fn evolved(g: Seq<u8>, rows: int, cols: int) -> Seq<u8> {
    Seq::new((rows * cols) as nat, |i: int| next_cell(g, rows, cols, i / cols, i % cols))
}

/// A relative coordinate offset, kept as a sign and a magnitude so that it
/// can be applied to an unsigned coordinate without underflow.
pub enum Offset {
    Neg(usize),
    Pos(usize),
}

/// The signed value of an offset.
pub open spec fn delta(o: Offset) -> int {
    match o {
        Offset::Neg(d) => -(d as int),
        Offset::Pos(d) => d as int,
    }
}

/// Applies an offset to a coordinate; `None` when the result would leave the
/// range of `usize`.
pub fn get_coord(i: usize, offset: Offset) -> (res: Option<usize>)
    ensures
        match res {
            Some(j) => j == i + delta(offset),
            None => i + delta(offset) < 0 || i + delta(offset) > usize::MAX,
        },
{
    match offset {
        Offset::Neg(d) => i.checked_sub(d),
        Offset::Pos(d) => i.checked_add(d),
    }
}

/// Reads one neighbour of `(r, c)` as 0 or 1, treating positions outside the
/// grid as dead.
fn neighbor_live(g: &Vec<u8>, rows: usize, cols: usize, r: usize, c: usize, ro: Offset, co: Offset)
    -> (v: u8)
    requires
        grid_wf(g@, rows as int, cols as int),
        r < rows,
        c < cols,
    ensures
        v as int == live(g@, rows as int, cols as int, r + delta(ro), c + delta(co)),
{
    let ri = get_coord(r, ro);
    let ci = get_coord(c, co);
    match (ri, ci) {
        (Some(rd), Some(cd)) => {
            if rd >= rows || cd >= cols {
                0
            } else {
                proof {
                    lemma_grid_index(rows as int, cols as int, rd as int, cd as int);
                }
                vec_at(g, cols, rd, cd)
            }
        },
        _ => 0,
    }
}

/// Counts the live cells among the 8 Moore neighbours of `(r, c)`.
pub fn count_alive_neighbors(g: &Vec<u8>, rows: usize, cols: usize, r: usize, c: usize) -> (n: u8)
    requires
        grid_wf(g@, rows as int, cols as int),
        r < rows,
        c < cols,
    ensures
        n as int == neighbor_count(g@, rows as int, cols as int, r as int, c as int),
{
    let mut n: u8 = neighbor_live(g, rows, cols, r, c, Offset::Neg(1), Offset::Neg(1));
    n = n + neighbor_live(g, rows, cols, r, c, Offset::Neg(1), Offset::Pos(0));
    n = n + neighbor_live(g, rows, cols, r, c, Offset::Neg(1), Offset::Pos(1));
    n = n + neighbor_live(g, rows, cols, r, c, Offset::Pos(0), Offset::Neg(1));
    n = n + neighbor_live(g, rows, cols, r, c, Offset::Pos(0), Offset::Pos(1));
    n = n + neighbor_live(g, rows, cols, r, c, Offset::Pos(1), Offset::Neg(1));
    n = n + neighbor_live(g, rows, cols, r, c, Offset::Pos(1), Offset::Pos(0));
    n = n + neighbor_live(g, rows, cols, r, c, Offset::Pos(1), Offset::Pos(1));
    n
}

/// Computes the next raw state of the cell at flat index `idx` from the
/// read-only snapshot `src`.
pub fn vec_lives(src: &Vec<u8>, rows: usize, cols: usize, idx: usize) -> (s: u8)
    requires
        grid_wf(src@, rows as int, cols as int),
        idx < src.len(),
    ensures
        s == next_cell(
            src@,
            rows as int,
            cols as int,
            idx as int / cols as int,
            idx as int % cols as int,
        ),
{
    proof {
        lemma_dims_positive(rows as int, cols as int);
        lemma_index_coords(rows as int, cols as int, idx as int);
    }
    let (r, c) = to_coord(idx, cols);
    let n = count_alive_neighbors(src, rows, cols, r, c);
    let cur = vec_at(src, cols, r, c);
    if cur == 1 {
        if n == 2 || n == 3 {
            1
        } else {
            0
        }
    } else {
        if n == 3 {
            1
        } else {
            0
        }
    }
}

/// Evolution preserves well-formedness: the next generation has the same
/// length and again holds only 0/1 cells.
pub proof fn lemma_evolved_wf(g: Seq<u8>, rows: int, cols: int)
    requires
        grid_wf(g, rows, cols),
    ensures
        grid_wf(evolved(g, rows, cols), rows, cols),
{
}

/// One full tick: applies the rule to every cell of the read-only snapshot
/// `grid` and returns the next generation; the input is not changed.
pub fn evolve(grid: &Vec<u8>, rows: usize, cols: usize) -> (next: Vec<u8>)
    requires
        grid_wf(grid@, rows as int, cols as int),
    ensures
        next@ == evolved(grid@, rows as int, cols as int),
        next@.len() == (rows as int) * (cols as int),
        grid_wf(next@, rows as int, cols as int),
{
    let len = grid.len();
    let mut next: Vec<u8> = Vec::new();
    let mut i: usize = 0;
    while i < len
        invariant
            grid_wf(grid@, rows as int, cols as int),
            len == grid@.len(),
            i <= len,
            next@.len() == i,
            forall|k: int|
                0 <= k < i ==> next@[k] == next_cell(
                    grid@,
                    rows as int,
                    cols as int,
                    k / cols as int,
                    k % cols as int,
                ),
        decreases len - i,
    {
        let s = vec_lives(grid, rows, cols, i);
        next.push(s);
        i = i + 1;
    }
    proof {
        assert(next@ =~= evolved(grid@, rows as int, cols as int));
        lemma_evolved_wf(grid@, rows as int, cols as int);
    }
    next
}

/// Relies on rayon: mapping the index range `0..len` with an indexed parallel
/// iterator and collecting with `collect_into_vec` yields one entry per
/// index, in index order; each entry is produced by the verified `vec_lives`.
#[verifier::external_body]
fn par_step(grid: &Vec<u8>, rows: usize, cols: usize) -> (next: Vec<u8>)
    requires
        grid_wf(grid@, rows as int, cols as int),
    ensures
        next@ == evolved(grid@, rows as int, cols as int),
{
    let mut next: Vec<u8> = Vec::new();
    (0..grid.len()).into_par_iter().map(|idx| vec_lives(grid, rows, cols, idx)).collect_into_vec(
        &mut next,
    );
    next
}

/// One full tick computed as a data-parallel map over the cell indices; the
/// result is identical, cell for cell, to the sequential `evolve`.
pub fn run_vec_step(grid: &Vec<u8>, rows: usize, cols: usize) -> (next: Vec<u8>)
    requires
        grid_wf(grid@, rows as int, cols as int),
    ensures
        next@ == evolved(grid@, rows as int, cols as int),
        next@.len() == (rows as int) * (cols as int),
        grid_wf(next@, rows as int, cols as int),
{
    let next = par_step(grid, rows, cols);
    proof {
        lemma_evolved_wf(grid@, rows as int, cols as int);
    }
    next
}

/// Reading the evolved grid at `(a, b)` gives the rule applied at `(a, b)`.
pub proof fn lemma_evolved_at(g: Seq<u8>, rows: int, cols: int, a: int, b: int)
    requires
        cols > 0,
        0 <= a < rows,
        0 <= b < cols,
    ensures
        at(evolved(g, rows, cols), cols, a, b) == next_cell(g, rows, cols, a, b),
{
    lemma_grid_index(rows, cols, a, b);
    vstd::arithmetic::div_mod::lemma_fundamental_div_mod_converse(a * cols + b, cols, a, b);
}

/// Locality: the next state of a cell depends only on that cell and its 8
/// Moore neighbours, never on any other cell of the snapshot. This is what
/// makes the per-cell rule safe to evaluate in any order, or in parallel.
pub proof fn lemma_next_cell_local(g1: Seq<u8>, g2: Seq<u8>, rows: int, cols: int, r: int, c: int)
    requires
        0 <= r < rows,
        0 <= c < cols,
        forall|a: int, b: int|
            r - 1 <= a <= r + 1 && c - 1 <= b <= c + 1 && 0 <= a < rows && 0 <= b < cols
                ==> at(g1, cols, a, b) == at(g2, cols, a, b),
    ensures
        next_cell(g1, rows, cols, r, c) == next_cell(g2, rows, cols, r, c),
{
}

/// Stasis: a well-formed grid with no live cell evolves to itself, whatever
/// the dimensions.
pub proof fn lemma_empty_grid_stays_empty(g: Seq<u8>, rows: int, cols: int)
    requires
        grid_wf(g, rows, cols),
        forall|i: int| 0 <= i < g.len() ==> g[i] == 0,
    ensures
        evolved(g, rows, cols) == g,
{
    let e = evolved(g, rows, cols);
    assert forall|i: int| 0 <= i < g.len() implies e[i] == g[i] by {
        lemma_dims_positive(rows, cols);
        lemma_index_coords(rows, cols, i);
        let r = i / (cols as int);
        let c = i % (cols as int);
        lemma_live_all_dead(g, rows, cols, r - 1, c - 1);
        lemma_live_all_dead(g, rows, cols, r - 1, c);
        lemma_live_all_dead(g, rows, cols, r - 1, c + 1);
        lemma_live_all_dead(g, rows, cols, r, c - 1);
        lemma_live_all_dead(g, rows, cols, r, c + 1);
        lemma_live_all_dead(g, rows, cols, r + 1, c - 1);
        lemma_live_all_dead(g, rows, cols, r + 1, c);
        lemma_live_all_dead(g, rows, cols, r + 1, c + 1);
    }
    assert(e =~= g);
}

/// In an all-dead grid every position reads as dead.
proof fn lemma_live_all_dead(g: Seq<u8>, rows: int, cols: int, a: int, b: int)
    requires
        grid_wf(g, rows, cols),
        forall|i: int| 0 <= i < g.len() ==> g[i] == 0,
    ensures
        live(g, rows, cols, a, b) == 0,
{
    if 0 <= a < rows && 0 <= b < cols {
        lemma_grid_index(rows, cols, a, b);
    }
}

/// Only 3 of the 8 offsets can land inside the grid from the corner `(0, 0)`:
/// its neighbour count is the sum over those 3 positions alone.
pub proof fn lemma_corner_neighbor_positions(g: Seq<u8>, rows: int, cols: int)
    ensures
        neighbor_count(g, rows, cols, 0, 0) == live(g, rows, cols, 0, 1) + live(g, rows, cols, 1, 0)
            + live(g, rows, cols, 1, 1),
{
}

/// A lone live cell in the corner `(0, 0)` has no live neighbour, so it dies,
/// and no other cell sees 3 live neighbours: one tick empties the grid.
pub proof fn lemma_lone_corner_cell_dies(g: Seq<u8>, rows: int, cols: int)
    requires
        grid_wf(g, rows, cols),
        rows >= 1,
        cols >= 1,
        forall|a: int, b: int|
            0 <= a < rows && 0 <= b < cols ==> (at(g, cols, a, b) == 1 <==> (a == 0 && b == 0)),
    ensures
        forall|i: int|
            0 <= i < evolved(g, rows, cols).len() ==> evolved(g, rows, cols)[i] == 0,
{
    let e = evolved(g, rows, cols);
    assert forall|i: int| 0 <= i < e.len() implies e[i] == 0 by {
        lemma_index_coords(rows, cols, i);
        let r = i / (cols as int);
        let c = i % (cols as int);
        lemma_grid_index(rows, cols, r, c);
        assert(e[i] == next_cell(g, rows, cols, r, c));
    }
}

} // verus!
