//! A textual view of a raw grid: one line per row, one glyph per cell.

use crate::grid::{grid_wf, lemma_dims_positive};
use vstd::prelude::*;

verus! {

/// Relies on String::push: appends the given character to the end of the
/// string.
pub assume_specification[ String::push ](s: &mut String, ch: char)
    ensures
        final(s)@ == old(s)@.push(ch),
;

/// The glyph printed for one cell, followed by a space: a filled square for
/// a live cell, an open square for a dead one.
pub open spec fn glyph(v: u8) -> Seq<char> {
    if v == 1 {
        seq!['\u{25fc}', ' ']
    } else {
        seq!['\u{25fb}', ' ']
    }
}

/// The text of the first `k` cells: a newline before the first cell of each
/// row, then the cell's glyph.
pub open spec fn text_prefix(g: Seq<u8>, cols: int, k: int) -> Seq<char>
    decreases k,
{
    if k <= 0 {
        Seq::empty()
    } else {
        let rest = text_prefix(g, cols, k - 1);
        let cell = glyph(g[k - 1]);
        if (k - 1) % cols == 0 {
            rest + seq!['\n'] + cell
        } else {
            rest + cell
        }
    }
}

/// The textual view of the whole grid.
pub open spec fn grid_text(g: Seq<u8>, cols: int) -> Seq<char> {
    text_prefix(g, cols, g.len() as int)
}

/// Renders the grid as text, row by row; consumers print it as they please.
pub fn render_text(grid: &Vec<u8>, rows: usize, cols: usize) -> (s: String)
    requires
        grid_wf(grid@, rows as int, cols as int),
    ensures
        s@ == grid_text(grid@, cols as int),
{
    let len = grid.len();
    let mut s = String::new();
    let mut i: usize = 0;
    while i < len
        invariant
            grid_wf(grid@, rows as int, cols as int),
            len == grid@.len(),
            i <= len,
            s@ == text_prefix(grid@, cols as int, i as int),
        decreases len - i,
    {
        proof {
            lemma_dims_positive(rows as int, cols as int);
        }
        if i % cols == 0 {
            s.push('\n');
        }
        if grid[i] == 1 {
            s.push('\u{25fc}');
        } else {
            s.push('\u{25fb}');
        }
        s.push(' ');
        proof {
            assert(s@ =~= text_prefix(grid@, cols as int, i as int + 1));
        }
        i = i + 1;
    }
    s
}

} // verus!
