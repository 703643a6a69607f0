//! The trail: for every cell that a robot has stood on, the step at which a
//! robot was last seen there. Nothing ever leaves the trail.

use crate::decay::{color_of_age, trail_color, Tick, TrailColor};
use crate::grid::{occupied, Position, Robot};
use std::collections::HashMap;
use vstd::prelude::*;
use vstd::std_specs::iter::IteratorSpec;

verus! {

/// The number under which the trail files a cell: both coordinates are
/// shifted to be non-negative, and the column counts 2^32 times the row.
spec fn cell_key(p: Position) -> u64 {
    ((p.0 + 0x8000_0000) * 0x1_0000_0000 + (p.1 + 0x8000_0000)) as u64
}

/// The cell that is filed under `key`.
spec fn key_cell(key: u64) -> Position {
    ((key / 0x1_0000_0000 - 0x8000_0000) as i32, (key % 0x1_0000_0000 - 0x8000_0000) as i32)
}

/// Every cell has a key of its own, and every key belongs to a cell.
proof fn lemma_keys_match_cells()
    ensures
        forall|p: Position| key_cell(#[trigger] cell_key(p)) == p,
        forall|key: u64| cell_key(#[trigger] key_cell(key)) == key,
{
}

fn key_of(p: Position) -> (key: u64)
    ensures
        key == cell_key(p),
{
    let column: u64 = (p.0 as i64 + 0x8000_0000) as u64;
    let row: u64 = (p.1 as i64 + 0x8000_0000) as u64;
    column * 0x1_0000_0000 + row
}

fn cell_of(key: u64) -> (p: Position)
    ensures
        p == key_cell(key),
{
    (
        ((key / 0x1_0000_0000) as i64 - 0x8000_0000) as i32,
        ((key % 0x1_0000_0000) as i64 - 0x8000_0000) as i32,
    )
}

/// The trail after every cell that a robot of the registry stands on has
/// been marked as seen at `tick`. The other cells keep what they had.
pub open spec fn stamped(
    trail: Map<Position, Tick>,
    positions: Map<u32, Robot>,
    tick: Tick,
) -> Map<Position, Tick> {
    Map::new(
        |p: Position| trail.contains_key(p) || occupied(positions, p),
        |p: Position|
            if occupied(positions, p) {
                tick
            } else {
                trail[p]
            },
    )
}

/// No cell of the trail was seen later than `tick`.
pub open spec fn not_after(trail: Map<Position, Tick>, tick: Tick) -> bool {
    forall|p: Position| trail.contains_key(p) ==> #[trigger] trail[p] <= tick
}

/// The list names every cell of the trail once, with the step at which the
/// cell was last seen, and nothing else.
pub open spec fn lists(entries: Seq<(Position, Tick)>, trail: Map<Position, Tick>) -> bool {
    &&& forall|i: int|
        0 <= i < entries.len() ==> trail.contains_key((#[trigger] entries[i]).0) && trail[entries[i].0]
            == entries[i].1
    &&& forall|p: Position|
        trail.contains_key(p) ==> exists|i: int|
            0 <= i < entries.len() && (#[trigger] entries[i]).0 == p
    &&& forall|i: int, j: int|
        0 <= i < j < entries.len() ==> (#[trigger] entries[i]).0 != (#[trigger] entries[j]).0
}

/// The list gives every cell of the trail once, with the colour that its
/// last visit has at `current_tick`, and nothing else.
pub open spec fn paints(
    marks: Seq<(Position, TrailColor)>,
    trail: Map<Position, Tick>,
    current_tick: Tick,
) -> bool {
    &&& forall|i: int|
        0 <= i < marks.len() ==> trail.contains_key((#[trigger] marks[i]).0) && marks[i].1
            == color_of_age((current_tick - trail[marks[i].0]) as nat)
    &&& forall|p: Position|
        trail.contains_key(p) ==> exists|i: int| 0 <= i < marks.len() && (#[trigger] marks[i]).0 == p
    &&& forall|i: int, j: int|
        0 <= i < j < marks.len() ==> (#[trigger] marks[i]).0 != (#[trigger] marks[j]).0
}

/// The cells that robots have stood on, each with the step of its last visit.
pub struct Trail {
    seen: HashMap<u64, Tick>,
}

impl View for Trail {
    type V = Map<Position, Tick>;

    closed spec fn view(&self) -> Map<Position, Tick> {
        Map::new(
            |p: Position| self.seen@.contains_key(cell_key(p)),
            |p: Position| self.seen@[cell_key(p)],
        )
    }
}

impl Trail {
    /// A trail without any cell.
    pub fn new() -> (trail: Trail)
        ensures
            trail@ == Map::<Position, Tick>::empty(),
    {
        Trail { seen: HashMap::new() }
    }

    /// Marks the cell `p` as seen at `tick`.
    pub fn stamp(&mut self, p: Position, tick: Tick)
        ensures
            final(self)@ == old(self)@.insert(p, tick),
    {
        broadcast use vstd::std_specs::hash::group_hash_axioms;

        self.seen.insert(key_of(p), tick);
        proof {
            lemma_keys_match_cells();
        }
    }

    /// The step at which the cell `p` was last seen, if it ever was.
    pub fn last_seen(&self, p: Position) -> (tick: Option<Tick>)
        ensures
            match tick {
                Some(t) => self@.contains_key(p) && self@[p] == t,
                None => !self@.contains_key(p),
            },
    {
        broadcast use vstd::std_specs::hash::group_hash_axioms;

        match self.seen.get(&key_of(p)) {
            Some(t) => Some(*t),
            None => None,
        }
    }

    /// Marks every cell that a robot of the registry stands on as seen at
    /// `tick`.
    pub fn stamp_all(&mut self, positions: &HashMap<u32, Robot>, tick: Tick)
        ensures
            final(self)@ == stamped(old(self)@, positions@, tick),
    {
        broadcast use vstd::std_specs::hash::group_hash_axioms;

        let ghost mut done: Map<u32, Robot> = Map::empty();
        for (id, robot) in it: positions.iter()
            invariant
                self@ == stamped(old(self)@, done, tick),
                forall|k: u32| #[trigger]
                    done.contains_key(k) ==> positions@.contains_key(k) && done[k] == positions@[k],
                forall|j: int|
                    0 <= j < it.index() ==> done.contains_key(*(#[trigger] it.seq()[j]).0),
        {
            self.stamp(robot.coords, tick);
            proof {
                let after = done.insert(*id, *robot);
                assert(after[*id].coords == robot.coords);
                assert forall|p: Position|
                    occupied(after, p) <==> occupied(done, p) || p == robot.coords by {
                    if occupied(done, p) {
                        let k = choose|k: u32| done.contains_key(k) && (#[trigger] done[k]).coords == p;
                        if k != *id {
                            assert(after.contains_key(k) && after[k].coords == p);
                        }
                    }
                }
                done = after;
            }
        }
    }

    /// Every cell of the trail with the step of its last visit, in no
    /// particular order.
    pub fn entries(&self) -> (entries: Vec<(Position, Tick)>)
        ensures
            lists(entries@, self@),
    {
        broadcast use vstd::std_specs::hash::group_hash_axioms;

        proof {
            lemma_keys_match_cells();
        }
        let mut entries: Vec<(Position, Tick)> = Vec::new();
        let ghost items = self.seen.iter().remaining();
        for (key, tick) in it: self.seen.iter()
            invariant
                it.seq() == items,
                it.seq().no_duplicates(),
                entries@.len() == it.index(),
                forall|i: int|
                    0 <= i < entries@.len() ==> (#[trigger] entries@[i]) == (
                        key_cell(*it.seq()[i].0),
                        *it.seq()[i].1,
                    ),
                forall|key: u64| cell_key(#[trigger] key_cell(key)) == key,
                forall|p: Position| key_cell(#[trigger] cell_key(p)) == p,
        {
            entries.push((cell_of(*key), *tick));
        }
        proof {
            assert forall|i: int| 0 <= i < entries@.len() implies self@.contains_key(
                (#[trigger] entries@[i]).0,
            ) && self@[entries@[i].0] == entries@[i].1 by {
                assert(self.seen@.contains_key(*items[i].0));
            }
            assert forall|p: Position| self@.contains_key(p) implies exists|i: int|
                0 <= i < entries@.len() && (#[trigger] entries@[i]).0 == p by {
                let k = cell_key(p);
                assert(items.contains((&k, &self.seen@[k])));
                let i = choose|i: int| 0 <= i < items.len() && items[i] == (&k, &self.seen@[k]);
                assert(entries@[i].0 == p);
            }
            assert forall|i: int, j: int| 0 <= i < j < entries@.len() implies (
            #[trigger] entries@[i]).0 != (#[trigger] entries@[j]).0 by {
                if entries@[i].0 == entries@[j].0 {
                    assert(*items[i].0 == *items[j].0);
                    assert(items[i] == items[j]);
                }
            }
        }
        entries
    }

    /// Every cell of the trail with the colour to draw it in at
    /// `current_tick`, in no particular order.
    pub fn colors(&self, current_tick: Tick) -> (marks: Vec<(Position, TrailColor)>)
        requires
            not_after(self@, current_tick),
        ensures
            paints(marks@, self@, current_tick),
    {
        let entries = self.entries();
        let mut marks: Vec<(Position, TrailColor)> = Vec::new();
        let mut i: usize = 0;
        while i < entries.len()
            invariant
                0 <= i <= entries@.len(),
                lists(entries@, self@),
                not_after(self@, current_tick),
                marks@.len() == i,
                forall|j: int|
                    0 <= j < i ==> (#[trigger] marks@[j]) == (
                        entries@[j].0,
                        color_of_age((current_tick - entries@[j].1) as nat),
                    ),
            decreases entries@.len() - i,
        {
            let (p, seen) = entries[i];
            marks.push((p, trail_color(current_tick, seen)));
            i = i + 1;
        }
        proof {
            assert forall|p: Position| self@.contains_key(p) implies exists|i: int|
                0 <= i < marks@.len() && (#[trigger] marks@[i]).0 == p by {
                let i = choose|i: int| 0 <= i < entries@.len() && (#[trigger] entries@[i]).0 == p;
                assert(marks@[i].0 == p);
            }
        }
        marks
    }
}

} // verus!
