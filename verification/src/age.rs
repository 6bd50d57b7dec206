//! The per-cell age tracker: a pure map from the previous age state and the
//! new raw state to a display-ready age state, sequentially or in parallel.

use crate::grid::grid_wf;
use rayon::iter::{IndexedParallelIterator, IntoParallelIterator, ParallelIterator};
use vstd::prelude::*;

verus! {

/// Highest value the live-streak counter reaches before it saturates.
pub const MAX_GEN: i8 = 9;

/// Highest value the ticks-since-death counter reaches before it saturates.
pub const MAX_DEAD_AGE: u8 = 10;

/// Per-cell display state. `generation > 0` counts consecutive live ticks;
/// `generation < 0` records the streak length at the moment of death, with
/// `dead_for` counting ticks since death; `(0, 0)` is the neutral state of a
/// cell with nothing left to show.
#[derive(Clone, Copy, Debug, PartialEq, Eq, Structural)]
pub struct AgedCell {
    pub generation: i8,
    pub dead_for: u8,
}

/// The age-transition table for one cell. A cell that is now alive extends
/// its streak (capped at `MAX_GEN`) and clears the death count; a streak that
/// just ended flips its sign and starts the death count at 1; an already-dead
/// cell keeps its recorded streak while the death count grows (capped at
/// `MAX_DEAD_AGE`); every other combination rests at neutral.
pub open spec fn next_age(prev: AgedCell, raw: u8) -> AgedCell {
    if raw == 1 {
        let up: int = if prev.generation > 0 {
            prev.generation + 1
        } else {
            1
        };
        let capped: int = if up > MAX_GEN as int {
            MAX_GEN as int
        } else {
            up
        };
        AgedCell { generation: capped as i8, dead_for: 0 }
    } else if prev.generation > 0 && prev.dead_for == 0 {
        AgedCell { generation: (-(prev.generation as int)) as i8, dead_for: 1 }
    } else if prev.generation < 0 && prev.dead_for > 0 {
        let next_dead: int = if prev.dead_for as int + 1 > MAX_DEAD_AGE as int {
            MAX_DEAD_AGE as int
        } else {
            prev.dead_for as int + 1
        };
        AgedCell { generation: prev.generation, dead_for: next_dead as u8 }
    } else {
        AgedCell { generation: 0, dead_for: 0 }
    }
}

/// The whole next age array: entry `i` is the table applied to the pair
/// `(prev[i], raw[i])`.
pub open spec fn aged(prev: Seq<AgedCell>, raw: Seq<u8>) -> Seq<AgedCell> {
    Seq::new(prev.len(), |i: int| next_age(prev[i], raw[i]))
}

/// Computes the next age state of one cell from its previous age state and
/// its new raw state.
pub fn age_step(prev: AgedCell, raw: u8) -> (next: AgedCell)
    ensures
        next == next_age(prev, raw),
{
    if raw == 1 {
        let g: i8 = if prev.generation >= MAX_GEN {
            MAX_GEN
        } else if prev.generation > 0 {
            prev.generation + 1
        } else {
            1
        };
        AgedCell { generation: g, dead_for: 0 }
    } else if prev.generation > 0 && prev.dead_for == 0 {
        AgedCell { generation: -prev.generation, dead_for: 1 }
    } else if prev.generation < 0 && prev.dead_for > 0 {
        let d: u8 = if prev.dead_for >= MAX_DEAD_AGE {
            MAX_DEAD_AGE
        } else {
            prev.dead_for + 1
        };
        AgedCell { generation: prev.generation, dead_for: d }
    } else {
        AgedCell { generation: 0, dead_for: 0 }
    }
}

/// Reads one cell pair and applies the table; the closure handed to the
/// parallel map calls only this function.
pub fn age_at(prev: &Vec<AgedCell>, raw: &Vec<u8>, idx: usize) -> (next: AgedCell)
    requires
        idx < prev.len(),
        idx < raw.len(),
    ensures
        next == next_age(prev@[idx as int], raw@[idx as int]),
{
    age_step(prev[idx], raw[idx])
}

/// Derives the next age array from the previous one and the new raw grid,
/// cell by cell; neither input is changed.
pub fn track_age(prev_ages: &Vec<AgedCell>, new_raw: &Vec<u8>, rows: usize, cols: usize) -> (ages:
    Vec<AgedCell>)
    requires
        prev_ages@.len() == (rows as int) * (cols as int),
        grid_wf(new_raw@, rows as int, cols as int),
    ensures
        ages@ == aged(prev_ages@, new_raw@),
        ages@.len() == (rows as int) * (cols as int),
{
    let len = prev_ages.len();
    let mut ages: Vec<AgedCell> = Vec::new();
    let mut i: usize = 0;
    while i < len
        invariant
            len == prev_ages@.len(),
            prev_ages@.len() == new_raw@.len(),
            i <= len,
            ages@.len() == i,
            forall|k: int| 0 <= k < i ==> ages@[k] == next_age(prev_ages@[k], new_raw@[k]),
        decreases len - i,
    {
        let next = age_at(prev_ages, new_raw, i);
        ages.push(next);
        i = i + 1;
    }
    proof {
        assert(ages@ =~= aged(prev_ages@, new_raw@));
    }
    ages
}

/// Relies on rayon: mapping the index range `0..len` with an indexed parallel
/// iterator and collecting with `collect_into_vec` yields one entry per
/// index, in index order; each entry is produced by the verified `age_at`.
#[verifier::external_body]
fn par_ages(prev: &Vec<AgedCell>, raw: &Vec<u8>) -> (ages: Vec<AgedCell>)
    requires
        prev@.len() <= raw@.len(),
    ensures
        ages@ == aged(prev@, raw@),
{
    let mut ages: Vec<AgedCell> = Vec::new();
    (0..prev.len()).into_par_iter().map(|idx| age_at(prev, raw, idx)).collect_into_vec(&mut ages);
    ages
}

/// The age update as a data-parallel map over the cell indices; the result is
/// identical, cell for cell, to the sequential `track_age`.
pub fn update_ages(prev_ages: &Vec<AgedCell>, new_raw: &Vec<u8>, rows: usize, cols: usize) -> (ages:
    Vec<AgedCell>)
    requires
        prev_ages@.len() == (rows as int) * (cols as int),
        grid_wf(new_raw@, rows as int, cols as int),
    ensures
        ages@ == aged(prev_ages@, new_raw@),
        ages@.len() == (rows as int) * (cols as int),
{
    par_ages(prev_ages, new_raw)
}

/// A reachable age state: a live streak in `0 ..= MAX_GEN` with no death
/// count, or a recorded death in `-MAX_GEN ..= -1` with a death count in
/// `1 ..= MAX_DEAD_AGE`.
pub open spec fn age_wf(a: AgedCell) -> bool {
    (0 <= a.generation <= MAX_GEN && a.dead_for == 0) || (-(MAX_GEN as int) <= a.generation <= -1
        && 1 <= a.dead_for <= MAX_DEAD_AGE)
}

/// The transition table keeps age states well formed: a cell can never show
/// both a live streak and a death count, and neither counter leaves its cap.
pub proof fn lemma_next_age_wf(prev: AgedCell, raw: u8)
    requires
        age_wf(prev),
    ensures
        age_wf(next_age(prev, raw)),
{
}

/// A live cell's streak grows by one each live tick until it saturates at
/// `MAX_GEN`, and shows no death count.
pub proof fn lemma_streak_counts_live_ticks(prev: AgedCell)
    requires
        prev.generation >= 0,
    ensures
        prev.generation < MAX_GEN ==> next_age(prev, 1).generation == prev.generation + 1,
        prev.generation >= MAX_GEN ==> next_age(prev, 1).generation == MAX_GEN,
        next_age(prev, 1).dead_for == 0,
{
}

/// Death flips the streak's sign, recording its length, and starts the death
/// count at 1.
pub proof fn lemma_death_records_streak(prev: AgedCell)
    requires
        prev.generation > 0,
        prev.dead_for == 0,
    ensures
        next_age(prev, 0) == (AgedCell {
            generation: (-(prev.generation as int)) as i8,
            dead_for: 1,
        }),
{
}

/// While a cell stays dead its death count grows by one each tick until it
/// saturates at `MAX_DEAD_AGE`, and the recorded streak is kept.
pub proof fn lemma_death_age_saturates(prev: AgedCell)
    requires
        prev.generation < 0,
        prev.dead_for >= 1,
    ensures
        next_age(prev, 0).generation == prev.generation,
        prev.dead_for < MAX_DEAD_AGE ==> next_age(prev, 0).dead_for == prev.dead_for + 1,
        prev.dead_for >= MAX_DEAD_AGE ==> next_age(prev, 0).dead_for == MAX_DEAD_AGE,
{
}

/// Revival restarts the streak at 1, whatever the death count was.
pub proof fn lemma_revival_resets_streak(prev: AgedCell)
    requires
        prev.generation < 0,
    ensures
        next_age(prev, 1) == (AgedCell { generation: 1, dead_for: 0 }),
{
}

} // verus!
