//! Well-known patterns, and what the rule of Life does to them.

use crate::life::{generation, living_neighbors, lives_on, next_generation};
use vstd::prelude::*;

verus! {

/// The glider anchored at `origin`: five live points, the anchor at the tip.
pub open spec fn glider(origin: (int, int)) -> Set<(int, int)> {
    set![
        origin,
        (origin.0 + 1, origin.1 + 1),
        (origin.0 - 1, origin.1 + 2),
        (origin.0, origin.1 + 2),
        (origin.0 + 1, origin.1 + 2),
    ]
}

/// The block whose corner with the least coordinates is `corner`: a square of
/// four live points.
pub open spec fn block(corner: (int, int)) -> Set<(int, int)> {
    set![
        corner,
        (corner.0 + 1, corner.1),
        (corner.0, corner.1 + 1),
        (corner.0 + 1, corner.1 + 1),
    ]
}

/// Three live points in a row, with `centre` in the middle.
pub open spec fn blinker_row(centre: (int, int)) -> Set<(int, int)> {
    set![(centre.0 - 1, centre.1), centre, (centre.0 + 1, centre.1)]
}

/// Three live points in a column, with `centre` in the middle.
pub open spec fn blinker_column(centre: (int, int)) -> Set<(int, int)> {
    set![(centre.0, centre.1 - 1), centre, (centre.0, centre.1 + 1)]
}

/// The block is a still life: the next generation is the same block.
pub proof fn lemma_block_is_still(corner: (int, int))
    ensures
        next_generation(block(corner)) == block(corner),
{
    let live = block(corner);
    assert forall|p: (int, int)| lives_on(live, p) == live.contains(p) by {}
    assert(next_generation(live) =~= live);
}

/// The blinker has period two: a row becomes the column through its centre,
/// and that column becomes the row again.
pub proof fn lemma_blinker_oscillates(centre: (int, int))
    ensures
        next_generation(blinker_row(centre)) == blinker_column(centre),
        next_generation(blinker_column(centre)) == blinker_row(centre),
{
    let row = blinker_row(centre);
    let column = blinker_column(centre);
    assert forall|p: (int, int)| lives_on(row, p) == column.contains(p) by {}
    assert forall|p: (int, int)| lives_on(column, p) == row.contains(p) by {}
    assert(next_generation(row) =~= column);
    assert(next_generation(column) =~= row);
}

/// The glider anchored at `origin`, one, two or three generations on; at
/// any other stage, the glider itself.
pub open spec fn glider_stage(origin: (int, int), stage: nat) -> Set<(int, int)> {
    let (x, y) = origin;
    if stage == 1 {
        set![(x - 1, y + 1), (x + 1, y + 1), (x, y + 2), (x + 1, y + 2), (x, y + 3)]
    } else if stage == 2 {
        set![(x + 1, y + 1), (x - 1, y + 2), (x + 1, y + 2), (x, y + 3), (x + 1, y + 3)]
    } else if stage == 3 {
        set![(x, y + 1), (x + 1, y + 2), (x + 2, y + 2), (x, y + 3), (x + 1, y + 3)]
    } else {
        glider(origin)
    }
}

/// The first generation of a glider's cycle.
pub proof fn lemma_glider_first_step(origin: (int, int))
    ensures
        next_generation(glider(origin)) == glider_stage(origin, 1),
{
    let live = glider(origin);
    let next = glider_stage(origin, 1);
    assert forall|p: (int, int)| lives_on(live, p) == next.contains(p) by {}
    assert(next_generation(live) =~= next);
}

/// The second generation of a glider's cycle.
pub proof fn lemma_glider_second_step(origin: (int, int))
    ensures
        next_generation(glider_stage(origin, 1)) == glider_stage(origin, 2),
{
    let live = glider_stage(origin, 1);
    let next = glider_stage(origin, 2);
    assert forall|p: (int, int)| lives_on(live, p) == next.contains(p) by {}
    assert(next_generation(live) =~= next);
}

/// The third generation of a glider's cycle.
pub proof fn lemma_glider_third_step(origin: (int, int))
    ensures
        next_generation(glider_stage(origin, 2)) == glider_stage(origin, 3),
{
    let live = glider_stage(origin, 2);
    let next = glider_stage(origin, 3);
    assert forall|p: (int, int)| lives_on(live, p) == next.contains(p) by {}
    assert(next_generation(live) =~= next);
}

/// The last generation of a glider's cycle: the glider again, one step
/// further along both axes.
pub proof fn lemma_glider_fourth_step(origin: (int, int))
    ensures
        next_generation(glider_stage(origin, 3)) == glider((origin.0 + 1, origin.1 + 1)),
{
    let live = glider_stage(origin, 3);
    let next = glider((origin.0 + 1, origin.1 + 1));
    assert forall|p: (int, int)| lives_on(live, p) == next.contains(p) by {}
    assert(next_generation(live) =~= next);
}

/// The glider travels: four generations on, it is the same glider one step
/// further along both axes.
pub proof fn lemma_glider_travels(origin: (int, int))
    ensures
        generation(glider(origin), 4) == glider((origin.0 + 1, origin.1 + 1)),
{
    lemma_glider_first_step(origin);
    lemma_glider_second_step(origin);
    lemma_glider_third_step(origin);
    lemma_glider_fourth_step(origin);
    reveal_with_fuel(generation, 5);
}

} // verus!
