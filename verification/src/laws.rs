use vstd::prelude::*;

use crate::cell::{flipped, Cell};
use crate::universe::{generations, live_neighbors, next_generation, toggled};

verus! {

/// Advancing a grid is deterministic: the next buffer is a pure function of
/// the cells, the dimensions and the generation count, so two grids seeded
/// with the same explicit content always advance to the same cells, bit for
/// bit — no hidden randomness enters a tick.
pub proof fn lemma_tick_deterministic(
    cells1: Seq<Cell>,
    cells2: Seq<Cell>,
    w1: nat,
    w2: nat,
    h1: nat,
    h2: nat,
    k1: nat,
    k2: nat,
)
    requires
        cells1 == cells2,
        w1 == w2,
        h1 == h2,
        k1 == k2,
    ensures
        generations(cells1, w1, h1, k1) == generations(cells2, w2, h2, k2),
{
}

/// A still life: every live cell has two or three live neighbors and no dead
/// cell has exactly three, so no cell has cause to change.
pub open spec fn is_still_life(cells: Seq<Cell>, w: nat, h: nat) -> bool {
    &&& cells.len() == w * h
    &&& forall|i: int|
        #![trigger cells[i]]
        0 <= i < cells.len() ==> {
            let live = live_neighbors(cells, w, h, (i / w as int) as nat, (i % w as int) as nat);
            &&& (cells[i] is Alive ==> 2 <= live <= 3)
            &&& (cells[i] is Dead ==> live != 3)
        }
}

/// One generation leaves a still life exactly as it was.
pub proof fn lemma_still_life_step(cells: Seq<Cell>, w: nat, h: nat)
    requires
        is_still_life(cells, w, h),
    ensures
        next_generation(cells, w, h) == cells,
{
    assert(next_generation(cells, w, h) =~= cells);
}

/// Still life stability: a grid on which every live cell keeps two or three
/// live neighbors and no dead cell sees exactly three — a 2-by-2 block of
/// live cells surrounded by dead ones, say — is unchanged by any number of
/// generations.
pub proof fn lemma_still_life_forever(cells: Seq<Cell>, w: nat, h: nat, k: nat)
    requires
        is_still_life(cells, w, h),
    ensures
        generations(cells, w, h, k) == cells,
    decreases k,
{
    if k > 0 {
        lemma_still_life_forever(cells, w, h, (k - 1) as nat);
        lemma_still_life_step(cells, w, h);
    }
}

/// Toggling a cell twice in succession returns the buffer to exactly its
/// original content: the cell comes back to its old state and no other cell
/// was touched either time.
pub proof fn lemma_toggle_self_inverse(cells: Seq<Cell>, i: int)
    requires
        0 <= i < cells.len(),
    ensures
        toggled(toggled(cells, i), i) == cells,
{
    assert(flipped(flipped(cells[i])) == cells[i]);
    assert(toggled(toggled(cells, i), i) =~= cells);
}

/// Toggling a cell changes that cell alone: every other index keeps its old
/// state.
pub proof fn lemma_toggle_touches_one_cell(cells: Seq<Cell>, i: int, j: int)
    requires
        0 <= i < cells.len(),
        0 <= j < cells.len(),
        i != j,
    ensures
        toggled(cells, i)[j] == cells[j],
{
}

/// At speed one a tick advances exactly one generation.
pub proof fn lemma_single_generation(cells: Seq<Cell>, w: nat, h: nat)
    ensures
        generations(cells, w, h, 1) == next_generation(cells, w, h),
{
    assert(generations(cells, w, h, 0) == cells);
}

/// Speed multiplier equivalence: advancing `a + b` generations in one call
/// gives the same cells as advancing `a` and then `b` — so one tick at speed
/// `n` equals `n` ticks at speed one.
pub proof fn lemma_generations_add(cells: Seq<Cell>, w: nat, h: nat, a: nat, b: nat)
    ensures
        generations(cells, w, h, a + b) == generations(generations(cells, w, h, a), w, h, b),
    decreases b,
{
    if b > 0 {
        lemma_generations_add(cells, w, h, a, (b - 1) as nat);
        assert(a + b == (a + (b - 1) as nat) + 1);
    }
}

} // verus!
