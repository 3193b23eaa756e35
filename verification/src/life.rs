//! The rule of Life, stated over the unbounded plane.
//!
//! A generation is the set of its live points. Everything here is
//! mathematics: points have unbounded integer coordinates, and nothing is
//! executable.

use vstd::prelude::*;

verus! {

/// The eight points around `p`: the four that share an edge with it, then the
/// four that share a corner.
pub open spec fn surrounding(p: (int, int)) -> Seq<(int, int)> {
    seq![
        (p.0 - 1, p.1),
        (p.0 + 1, p.1),
        (p.0, p.1 - 1),
        (p.0, p.1 + 1),
        (p.0 + 1, p.1 + 1),
        (p.0 + 1, p.1 - 1),
        (p.0 - 1, p.1 + 1),
        (p.0 - 1, p.1 - 1),
    ]
}

/// `a` and `b` are distinct points that touch by an edge or a corner.
pub open spec fn adjacent(a: (int, int), b: (int, int)) -> bool {
    &&& a != b
    &&& -1 <= a.0 - b.0 <= 1
    &&& -1 <= a.1 - b.1 <= 1
}

/// One if `p` is alive in `live`, zero if not.
pub open spec fn alive_at(live: Set<(int, int)>, p: (int, int)) -> nat {
    if live.contains(p) {
        1
    } else {
        0
    }
}

/// How many of the first `n` points of `points` are alive in `live`.
pub open spec fn alive_among(live: Set<(int, int)>, points: Seq<(int, int)>, n: nat) -> nat
    decreases n,
{
    if n == 0 {
        0
    } else {
        alive_among(live, points, (n - 1) as nat) + alive_at(live, points[n - 1])
    }
}

/// How many of the eight points around `p` are alive in `live`.
pub open spec fn living_neighbors(live: Set<(int, int)>, p: (int, int)) -> nat {
    alive_at(live, (p.0 - 1, p.1)) + alive_at(live, (p.0 + 1, p.1)) + alive_at(
        live,
        (p.0, p.1 - 1),
    ) + alive_at(live, (p.0, p.1 + 1)) + alive_at(live, (p.0 + 1, p.1 + 1)) + alive_at(
        live,
        (p.0 + 1, p.1 - 1),
    ) + alive_at(live, (p.0 - 1, p.1 + 1)) + alive_at(live, (p.0 - 1, p.1 - 1))
}

/// The points around `p` that are dead in `live`, in the order of
/// [`surrounding`].
pub open spec fn dead_neighbors(live: Set<(int, int)>, p: (int, int)) -> Seq<(int, int)> {
    surrounding(p).filter(|q: (int, int)| !live.contains(q))
}

/// Whether `p` is alive in the generation after `live`: a live point stays
/// with two or three living neighbours, a dead one comes to life with exactly
/// three.
pub open spec fn lives_on(live: Set<(int, int)>, p: (int, int)) -> bool {
    if live.contains(p) {
        living_neighbors(live, p) == 2 || living_neighbors(live, p) == 3
    } else {
        living_neighbors(live, p) == 3
    }
}

/// The generation after `live`.
pub open spec fn next_generation(live: Set<(int, int)>) -> Set<(int, int)> {
    Set::new(|p: (int, int)| lives_on(live, p))
}

/// The generation `n` steps after `live`.
pub open spec fn generation(live: Set<(int, int)>, n: nat) -> Set<(int, int)>
    decreases n,
{
    if n == 0 {
        live
    } else {
        next_generation(generation(live, (n - 1) as nat))
    }
}

/// The points around `p` are exactly the points adjacent to it.
pub proof fn lemma_surrounding_is_adjacent(p: (int, int), q: (int, int))
    ensures
        surrounding(p).contains(q) <==> adjacent(p, q),
        surrounding(p).len() == 8,
{
    let around = surrounding(p);
    if adjacent(p, q) {
        let dx = q.0 - p.0;
        let dy = q.1 - p.1;
        let i: int = if dx == -1 && dy == 0 {
            0
        } else if dx == 1 && dy == 0 {
            1
        } else if dx == 0 && dy == -1 {
            2
        } else if dx == 0 && dy == 1 {
            3
        } else if dx == 1 && dy == 1 {
            4
        } else if dx == 1 && dy == -1 {
            5
        } else if dx == -1 && dy == 1 {
            6
        } else {
            7
        };
        assert(around[i] == q);
    }
}

/// Counting the living among all eight surrounding points gives the number of
/// living neighbours.
pub proof fn lemma_alive_among_surrounding(live: Set<(int, int)>, p: (int, int))
    ensures
        alive_among(live, surrounding(p), 8) == living_neighbors(live, p),
{
    reveal_with_fuel(alive_among, 9);
}

/// No point has more than eight living neighbours.
pub proof fn lemma_living_neighbors_bounded(live: Set<(int, int)>, p: (int, int))
    ensures
        0 <= living_neighbors(live, p) <= 8,
{
}

/// A live point without living neighbours dies.
pub proof fn lemma_isolated_point_dies(live: Set<(int, int)>, p: (int, int))
    requires
        live.contains(p),
        living_neighbors(live, p) == 0,
    ensures
        !next_generation(live).contains(p),
{
}

/// A single live point leaves nothing behind.
pub proof fn lemma_single_point_dies_out(p: (int, int))
    ensures
        next_generation(set![p]) == Set::<(int, int)>::empty(),
{
    let live = set![p];
    assert forall|q: (int, int)| !lives_on(live, q) by {}
    assert(next_generation(live) =~= Set::<(int, int)>::empty());
}

/// A live point with four or more living neighbours dies.
pub proof fn lemma_crowded_point_dies(live: Set<(int, int)>, p: (int, int))
    requires
        live.contains(p),
        living_neighbors(live, p) >= 4,
    ensures
        !next_generation(live).contains(p),
{
}

/// A live point stays alive with two or three living neighbours, and with no
/// other number.
pub proof fn lemma_survival(live: Set<(int, int)>, p: (int, int))
    requires
        live.contains(p),
    ensures
        next_generation(live).contains(p) <==> living_neighbors(live, p) == 2 || living_neighbors(
            live,
            p,
        ) == 3,
{
}

/// A dead point comes to life with exactly three living neighbours, and with
/// no other number.
pub proof fn lemma_birth(live: Set<(int, int)>, p: (int, int))
    requires
        !live.contains(p),
    ensures
        next_generation(live).contains(p) <==> living_neighbors(live, p) == 3,
{
}

/// Life spreads by one step at most: every point of the next generation is a
/// live point or adjacent to one.
pub proof fn lemma_life_spreads_one_step(live: Set<(int, int)>, p: (int, int)) -> (q: (int, int))
    requires
        next_generation(live).contains(p),
    ensures
        live.contains(q),
        q == p || adjacent(q, p),
{
    if live.contains(p) {
        p
    } else {
        lemma_living_neighbor_exists(live, p)
    }
}

/// A point with a living neighbour is adjacent to a live point.
pub proof fn lemma_living_neighbor_exists(live: Set<(int, int)>, p: (int, int)) -> (q: (int, int))
    requires
        living_neighbors(live, p) > 0,
    ensures
        live.contains(q),
        adjacent(q, p),
{
    if live.contains((p.0 - 1, p.1)) {
        (p.0 - 1, p.1)
    } else if live.contains((p.0 + 1, p.1)) {
        (p.0 + 1, p.1)
    } else if live.contains((p.0, p.1 - 1)) {
        (p.0, p.1 - 1)
    } else if live.contains((p.0, p.1 + 1)) {
        (p.0, p.1 + 1)
    } else if live.contains((p.0 + 1, p.1 + 1)) {
        (p.0 + 1, p.1 + 1)
    } else if live.contains((p.0 + 1, p.1 - 1)) {
        (p.0 + 1, p.1 - 1)
    } else if live.contains((p.0 - 1, p.1 + 1)) {
        (p.0 - 1, p.1 + 1)
    } else {
        (p.0 - 1, p.1 - 1)
    }
}

/// A filtered sequence holds the elements of the sequence that pass the test,
/// and nothing else.
pub proof fn lemma_filter_members<A>(s: Seq<A>, pred: spec_fn(A) -> bool, x: A)
    ensures
        s.filter(pred).contains(x) <==> s.contains(x) && pred(x),
    decreases s.len(),
{
    reveal(Seq::filter);
    if s.len() > 0 {
        let front = s.drop_last();
        lemma_filter_members(front, pred, x);
        if s.filter(pred).contains(x) {
            let i = choose|i: int| 0 <= i < s.filter(pred).len() && s.filter(pred)[i] == x;
            if pred(s.last()) && i == front.filter(pred).len() {
                assert(s[s.len() - 1] == x);
            } else {
                assert(front.filter(pred)[i] == x);
                let j = choose|j: int| 0 <= j < front.len() && front[j] == x;
                assert(s[j] == x);
            }
        }
        if s.contains(x) && pred(x) {
            let j = choose|j: int| 0 <= j < s.len() && s[j] == x;
            if j == s.len() - 1 {
                assert(s.filter(pred)[front.filter(pred).len() as int] == x);
            } else {
                assert(front[j] == x);
                let i = choose|i: int|
                    0 <= i < front.filter(pred).len() && front.filter(pred)[i] == x;
                assert(s.filter(pred)[i] == x);
            }
        }
    }
}

/// The dead neighbours of `p` are the dead points adjacent to it.
pub proof fn lemma_dead_neighbors(live: Set<(int, int)>, p: (int, int), q: (int, int))
    ensures
        dead_neighbors(live, p).contains(q) <==> adjacent(p, q) && !live.contains(q),
{
    lemma_filter_members(surrounding(p), |q: (int, int)| !live.contains(q), q);
    lemma_surrounding_is_adjacent(p, q);
}

/// Whether `next` holds all that the live point `q` gives to the generation
/// after `live`: `q` itself if it survives, and each dead point around it
/// that comes to life.
pub open spec fn settled(live: Set<(int, int)>, next: Set<(int, int)>, q: (int, int)) -> bool {
    &&& lives_on(live, q) ==> next.contains(q)
    &&& forall|p: (int, int)|
        #![trigger next.contains(p)]
        adjacent(q, p) && !live.contains(p) && lives_on(live, p) ==> next.contains(p)
}

/// A scan that looks only at the live points and at the dead points around
/// them misses nothing: a dead point with no living neighbour stays dead.
pub proof fn lemma_scan_of_live_points_suffices(live: Set<(int, int)>, next: Set<(int, int)>)
    requires
        next.subset_of(next_generation(live)),
        forall|q: (int, int)| live.contains(q) ==> #[trigger] settled(live, next, q),
    ensures
        next == next_generation(live),
{
    assert forall|p: (int, int)| next_generation(live).contains(p) implies next.contains(p) by {
        if live.contains(p) {
            assert(settled(live, next, p));
        } else {
            let q = lemma_living_neighbor_exists(live, p);
            assert(settled(live, next, q));
        }
    }
    assert(next =~= next_generation(live));
}

} // verus!
