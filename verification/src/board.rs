//! The board: the live cells of one generation, stored sparsely.

use crate::cell::{Cell, CellState};
use crate::coord::{
    inside, key_of, lemma_key_round_trip, pack, point, point_of, representable, unpack, Coord,
};
use crate::life::{
    adjacent, alive_among, dead_neighbors, lemma_alive_among_surrounding, lemma_dead_neighbors,
    lemma_life_spreads_one_step, lemma_scan_of_live_points_suffices, living_neighbors, lives_on,
    next_generation, settled, surrounding,
};
use crate::patterns::glider;
use std::collections::HashMap;
use vstd::prelude::*;
use vstd::std_specs::iter::IteratorSpec;

verus! {

/// The live cells of one generation.
///
/// Only live cells take memory: a cell that is not stored is dead. The view
/// of a board is the set of its live points.
pub struct Board {
    inner: HashMap<u64, Cell>,
}

/// The state of `p` in the generation `live`.
pub open spec fn state_at(live: Set<(int, int)>, p: (int, int)) -> CellState {
    if live.contains(p) {
        CellState::Alive
    } else {
        CellState::Dead
    }
}

/// The points that a sequence of coordinates names, in the same order.
pub open spec fn points_of(coords: Seq<Coord>) -> Seq<(int, int)> {
    coords.map_values(|c: Coord| point(c))
}

/// The states in the generation `live` of a sequence of points, in the same
/// order.
pub open spec fn states_of(live: Set<(int, int)>, points: Seq<(int, int)>) -> Seq<CellState> {
    points.map_values(|p: (int, int)| state_at(live, p))
}

/// Whether every point of `live` lies at least `margin` steps inside the
/// representable square.
pub open spec fn all_inside(live: Set<(int, int)>, margin: int) -> bool {
    forall|p: (int, int)| live.contains(p) ==> inside(p, margin)
}

/// On a board without life every cell is dead.
pub proof fn lemma_empty_board_is_dead(p: (int, int))
    ensures
        state_at(Set::empty(), p) == CellState::Dead,
{
}

/// A cell that was spawned is alive.
pub proof fn lemma_spawned_cell_is_alive(live: Set<(int, int)>, p: (int, int))
    ensures
        state_at(live.insert(p), p) == CellState::Alive,
{
}

/// Spawning leaves every other cell as it was.
pub proof fn lemma_spawn_keeps_other_cells(live: Set<(int, int)>, p: (int, int), q: (int, int))
    requires
        q != p,
    ensures
        state_at(live.insert(p), q) == state_at(live, q),
{
}

/// Spawning a cell twice is the same as spawning it once.
pub proof fn lemma_spawn_is_idempotent(live: Set<(int, int)>, p: (int, int))
    ensures
        live.insert(p).insert(p) == live.insert(p),
{
    assert(live.insert(p).insert(p) =~= live.insert(p));
}

/// When every live point lies `margin` steps inside the representable
/// square, every point of the next generation lies `margin - 1` steps inside
/// it.
pub proof fn lemma_next_generation_inside(live: Set<(int, int)>, margin: int)
    requires
        all_inside(live, margin),
    ensures
        all_inside(next_generation(live), margin - 1),
{
    assert forall|p: (int, int)| next_generation(live).contains(p) implies inside(
        p,
        margin - 1,
    ) by {
        let q = lemma_life_spreads_one_step(live, p);
        assert(inside(q, margin));
    }
}

impl View for Board {
    type V = Set<(int, int)>;

    closed spec fn view(&self) -> Set<(int, int)> {
        Set::new(|p: (int, int)| representable(p) && self.inner@.contains_key(key_of(p) as u64))
    }
}

impl Board {
    /// No dead cell is ever stored.
    #[verifier::type_invariant]
    spec fn only_live_cells(self) -> bool {
        forall|key: u64| #[trigger]
            self.inner@.contains_key(key) ==> self.inner@[key].state == CellState::Alive
    }

    /// Every live cell of a board has coordinates that can be written down.
    pub proof fn lemma_points_are_representable(&self)
        ensures
            all_inside(self@, 0),
    {
    }

    /// A board has finitely many live cells.
    pub proof fn lemma_live_cells_are_finite(&self)
        ensures
            self@.finite(),
    {
        let decode = |key: u64| point_of(key as int);
        self.inner@.dom().lemma_map_finite(decode);
        assert forall|p: (int, int)| self@.contains(p) implies self.inner@.dom().map(
            decode,
        ).contains(p) by {
            lemma_key_round_trip(p);
            assert(decode(key_of(p) as u64) == p);
        }
        assert(self@ =~= self.inner@.dom().map(decode));
    }

    /// A board without life.
    pub fn new() -> (board: Board)
        ensures
            board@ == Set::<(int, int)>::empty(),
    {
        Board { inner: HashMap::new() }
    }

    /// Brings the cell at `coord` to life. Nothing changes if it is alive
    /// already.
    pub fn spawn(&mut self, coord: Coord)
        ensures
            final(self)@ == old(self)@.insert(point(coord)),
    {
        proof {
            use_type_invariant(&*self);
        }
        let mut inner: HashMap<u64, Cell> = HashMap::new();
        std::mem::swap(&mut inner, &mut self.inner);
        inner.insert(pack(coord), Cell { state: CellState::Alive });
        self.inner = inner;
    }

    /// The state of the cell at `coord`.
    pub fn get(&self, coord: Coord) -> (state: CellState)
        ensures
            state == state_at(self@, point(coord)),
    {
        proof {
            use_type_invariant(self);
        }
        let key = pack(coord);
        match self.inner.get(&key) {
            Some(cell) => cell.state,
            None => CellState::Dead,
        }
    }

    /// The coordinates of the eight cells around `coord`: left, right, above,
    /// below, then the four diagonals.
    pub fn surrounding(coord: Coord) -> (around: [Coord; 8])
        requires
            inside(point(coord), 1),
        ensures
            points_of(around@) == surrounding(point(coord)),
    {
        let (x, y) = coord;
        let around = [
            (x - 1, y),
            (x + 1, y),
            (x, y - 1),
            (x, y + 1),
            (x + 1, y + 1),
            (x + 1, y - 1),
            (x - 1, y + 1),
            (x - 1, y - 1),
        ];
        assert(points_of(around@) =~= surrounding(point(coord)));
        around
    }

    /// The states of the eight cells around `coord`, in the order of
    /// [`Board::surrounding`].
    pub fn get_neighbors(&self, coord: Coord) -> (states: [CellState; 8])
        requires
            inside(point(coord), 1),
        ensures
            states@ == states_of(self@, surrounding(point(coord))),
    {
        let (x, y) = coord;
        let states = [
            self.get((x - 1, y)),
            self.get((x + 1, y)),
            self.get((x, y - 1)),
            self.get((x, y + 1)),
            self.get((x + 1, y + 1)),
            self.get((x + 1, y - 1)),
            self.get((x - 1, y + 1)),
            self.get((x - 1, y - 1)),
        ];
        assert(states@ =~= states_of(self@, surrounding(point(coord))));
        states
    }

    /// How many of the eight cells around `coord` are alive.
    pub fn number_of_living_neighbors(&self, coord: Coord) -> (count: u8)
        requires
            inside(point(coord), 1),
        ensures
            count == living_neighbors(self@, point(coord)),
            count <= 8,
    {
        let neighbors = self.get_neighbors(coord);
        let ghost around = surrounding(point(coord));
        let mut count: u8 = 0;
        let mut i: usize = 0;
        while i < 8
            invariant
                i <= 8,
                around.len() == 8,
                neighbors@ == states_of(self@, around),
                count == alive_among(self@, around, i as nat),
                count <= i,
            decreases 8 - i,
        {
            if neighbors[i] == CellState::Alive {
                count += 1;
            }
            i += 1;
        }
        proof {
            lemma_alive_among_surrounding(self@, point(coord));
        }
        count
    }

    /// The coordinates of the cells around `coord` that are dead, in the order
    /// of [`Board::surrounding`].
    pub fn get_dead_neighbors(&self, coord: Coord) -> (deads: Vec<Coord>)
        requires
            inside(point(coord), 1),
        ensures
            points_of(deads@) == dead_neighbors(self@, point(coord)),
    {
        let around = Self::surrounding(coord);
        let ghost points = surrounding(point(coord));
        let ghost is_dead = |q: (int, int)| !self@.contains(q);
        let mut deads: Vec<Coord> = Vec::new();
        let mut i: usize = 0;
        proof {
            reveal(Seq::filter);
            assert(points.take(0).filter(is_dead) =~= Seq::empty());
        }
        while i < 8
            invariant
                i <= 8,
                points.len() == 8,
                points_of(around@) == points,
                is_dead == |q: (int, int)| !self@.contains(q),
                points_of(deads@) =~= points.take(i as int).filter(is_dead),
            decreases 8 - i,
        {
            let ele = around[i];
            proof {
                reveal(Seq::filter);
                assert(points_of(around@)[i as int] == point(ele));
                assert(points.take(i + 1).drop_last() =~= points.take(i as int));
            }
            if self.get(ele) == CellState::Dead {
                deads.push(ele);
            }
            i += 1;
        }
        assert(points.take(8) =~= points);
        deads
    }

    /// Spawns a glider whose tip is at `coord`. The glider reaches one column
    /// to either side of its tip and two rows beyond it.
    pub fn make_glider(&mut self, coord: Coord)
        requires
            i32::MIN < coord.0 < i32::MAX,
            coord.1 <= i32::MAX - 2,
        ensures
            final(self)@ == old(self)@.union(glider(point(coord))),
    {
        let (x, y) = coord;
        self.spawn((x, y));
        self.spawn((x + 1, y + 1));
        self.spawn((x - 1, y + 2));
        self.spawn((x, y + 2));
        self.spawn((x + 1, y + 2));
    }

    /// Whether every live cell lies two steps inside the representable
    /// square, as [`Board::progess`] needs it.
    pub fn has_room(&self) -> (roomy: bool)
        ensures
            roomy == all_inside(self@, 2),
    {
        let mut roomy = true;
        let ghost keys = self.inner.keys().remaining();
        for key in it: self.inner.keys()
            invariant
                it.seq() == keys,
                roomy == forall|j: int|
                    0 <= j < it.index() ==> inside(#[trigger] point_of(*keys[j] as int), 2),
        {
            let (x, y) = unpack(*key);
            if x < i32::MIN + 2 || x > i32::MAX - 2 || y < i32::MIN + 2 || y > i32::MAX - 2 {
                roomy = false;
            }
        }
        proof {
            if roomy {
                assert forall|p: (int, int)| self@.contains(p) implies inside(p, 2) by {
                    let key = key_of(p) as u64;
                    assert(keys.unref().to_set().contains(key));
                    let j = choose|j: int| 0 <= j < keys.len() && keys.unref()[j] == key;
                    assert(point_of(*keys[j] as int) == p);
                }
            } else {
                let j = choose|j: int|
                    0 <= j < keys.len() && !inside(#[trigger] point_of(*keys[j] as int), 2);
                assert(keys.unref()[j] == *keys[j]);
                assert(keys.unref().to_set().contains(*keys[j]));
                assert(self@.contains(point_of(*keys[j] as int)));
            }
        }
        roomy
    }

    /// The next generation.
    ///
    /// Looks at each live cell, which survives with two or three living
    /// neighbours, and at each dead cell around a live one, which comes to
    /// life with exactly three. The neighbours of a cell on the rim of the
    /// representable square cannot be written down, so every live cell has to
    /// lie two steps inside it.
    pub fn progess(self) -> (next: Board)
        requires
            all_inside(self@, 2),
        ensures
            next@ == next_generation(self@),
    {
        let mut new_board = Board::new();
        let ghost keys = self.inner.keys().remaining();
        for key in it: self.inner.keys()
            invariant
                it.seq() == keys,
                keys == self.inner.keys().remaining(),
                all_inside(self@, 2),
                new_board@.subset_of(next_generation(self@)),
                forall|j: int|
                    0 <= j < it.index() ==> settled(
                        self@,
                        new_board@,
                        #[trigger] point_of(*keys[j] as int),
                    ),
        {
            let coord = unpack(*key);
            let ghost q = point(coord);
            let ghost before = new_board@;
            proof {
                assert(keys.unref()[it.index()] == *key);
                assert(keys.unref().to_set().contains(*key));
                assert(self@.contains(q));
            }
            let living_neighbors = self.number_of_living_neighbors(coord);
            if living_neighbors == 2 || living_neighbors == 3 {
                new_board.spawn(coord);
            }
            let deads = self.get_dead_neighbors(coord);
            let mut i: usize = 0;
            while i < deads.len()
                invariant
                    i <= deads.len(),
                    all_inside(self@, 2),
                    self@.contains(q),
                    points_of(deads@) == dead_neighbors(self@, q),
                    before.subset_of(new_board@),
                    new_board@.subset_of(next_generation(self@)),
                    lives_on(self@, q) ==> new_board@.contains(q),
                    forall|k: int|
                        0 <= k < i && lives_on(self@, #[trigger] points_of(deads@)[k])
                            ==> new_board@.contains(points_of(deads@)[k]),
                decreases deads.len() - i,
            {
                let dead_cell_coord = deads[i];
                proof {
                    let d = points_of(deads@)[i as int];
                    assert(d == point(dead_cell_coord));
                    assert(dead_neighbors(self@, q).contains(d));
                    lemma_dead_neighbors(self@, q, d);
                }
                if self.number_of_living_neighbors(dead_cell_coord) == 3 {
                    new_board.spawn(dead_cell_coord);
                }
                i += 1;
            }
            proof {
                assert forall|p: (int, int)|
                    adjacent(q, p) && !self@.contains(p) && lives_on(
                        self@,
                        p,
                    ) implies #[trigger] new_board@.contains(p) by {
                    lemma_dead_neighbors(self@, q, p);
                    let k = choose|k: int|
                        0 <= k < points_of(deads@).len() && points_of(deads@)[k] == p;
                    assert(lives_on(self@, points_of(deads@)[k]));
                }
                assert(settled(self@, new_board@, q));
                assert(point_of(*keys[it.index()] as int) == q);
            }
        }
        proof {
            assert forall|q: (int, int)| self@.contains(q) implies settled(
                self@,
                new_board@,
                q,
            ) by {
                let key = key_of(q) as u64;
                assert(keys.unref().to_set().contains(key));
                let j = choose|j: int| 0 <= j < keys.len() && keys.unref()[j] == key;
                assert(point_of(*keys[j] as int) == q);
            }
            lemma_scan_of_live_points_suffices(self@, new_board@);
        }
        new_board
    }

    /// The coordinates of the live cells, each once, in no particular order.
    pub fn points(&self) -> (cells: Vec<Coord>)
        ensures
            points_of(cells@).no_duplicates(),
            points_of(cells@).to_set() == self@,
    {
        let mut cells: Vec<Coord> = Vec::new();
        let ghost keys = self.inner.keys().remaining();
        for key in it: self.inner.keys()
            invariant
                it.seq() == keys,
                cells@.len() == it.index(),
                forall|j: int|
                    0 <= j < cells@.len() ==> key_of(point(#[trigger] cells@[j])) == *keys[j],
        {
            cells.push(unpack(*key));
        }
        proof {
            let points = points_of(cells@);
            assert(cells@.len() == keys.len());
            assert forall|i: int, j: int| 0 <= i < j < points.len() implies points[i]
                != points[j] by {
                assert(keys[i] != keys[j]);
            }
            assert forall|p: (int, int)| points.to_set().contains(p) == self@.contains(p) by {
                if points.to_set().contains(p) {
                    let j = choose|j: int| 0 <= j < points.len() && points[j] == p;
                    assert(keys.unref()[j] == key_of(p));
                    assert(keys.unref().to_set().contains(key_of(p) as u64));
                }
                if self@.contains(p) {
                    let key = key_of(p) as u64;
                    assert(keys.unref().to_set().contains(key));
                    let j = choose|j: int| 0 <= j < keys.len() && keys.unref()[j] == key;
                    assert(points[j] == p);
                }
            }
        }
        cells
    }
}

} // verus!
