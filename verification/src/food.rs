//! Food: the active food cells and the spawner that places new food on cells
//! not occupied by the snake. The count of outstanding food items is
//! deliberately uncapped — every spawn adds one more item — and food may
//! overlap food; only food-vs-snake overlap is rejected, at spawn time.

use vstd::prelude::*;
use crate::geometry::{Arena, Position, contains_pos};

verus! {

/// How many random draws the spawner makes before falling back to a
/// deterministic scan for a free cell.
pub const SPAWN_ATTEMPTS: u32 = 64;

/// Relies on rand::random::<u32>: one 32-bit draw from the thread-local
/// generator. Nothing is assumed of the value drawn.
#[verifier::external_body]
fn draw_random_u32() -> u32 {
    rand::random::<u32>()
}

/// A randomly drawn cell of the arena: each coordinate is a fresh draw
/// reduced modulo the arena's extent on that axis.
fn draw_cell(arena: Arena) -> (p: Position)
    requires
        arena.wf(),
    ensures
        p.in_bounds(arena),
{
    let x = draw_random_u32() % arena.width;
    let y = draw_random_u32() % arena.height;
    Position { x, y }
}

/// Scan the arena row by row for the first cell not in `occupied`. Returns
/// `None` exactly when every cell of the arena is occupied.
pub fn find_free_cell(arena: Arena, occupied: &Vec<Position>) -> (r: Option<Position>)
    requires
        arena.wf(),
    ensures
        match r {
            Some(p) => p.in_bounds(arena) && !occupied@.contains(p),
            None => forall|p: Position| p.in_bounds(arena) ==> occupied@.contains(p),
        },
{
    let mut y: u32 = 0;
    while y < arena.height
        invariant
            y <= arena.height,
            arena.wf(),
            forall|p: Position| p.in_bounds(arena) && p.y < y ==> occupied@.contains(p),
        decreases arena.height - y,
    {
        let mut x: u32 = 0;
        while x < arena.width
            invariant
                x <= arena.width,
                y < arena.height,
                arena.wf(),
                forall|p: Position| p.in_bounds(arena) && p.y < y ==> occupied@.contains(p),
                forall|p: Position|
                    p.in_bounds(arena) && p.y == y && p.x < x ==> occupied@.contains(p),
            decreases arena.width - x,
        {
            let c = Position { x, y };
            if !contains_pos(occupied, c) {
                return Some(c);
            }
            x += 1;
        }
        y += 1;
    }
    None
}

/// Choose the cell for a new food item: draw random cells, redrawing any that
/// collides with an occupied cell; after a bounded number of draws, fall back
/// to a deterministic scan so a spawn on a non-full arena always succeeds.
/// Returns `None` exactly when every cell of the arena is occupied.
pub fn spawn_position(arena: Arena, occupied: &Vec<Position>) -> (r: Option<Position>)
    requires
        arena.wf(),
    ensures
        match r {
            Some(p) => p.in_bounds(arena) && !occupied@.contains(p),
            None => forall|p: Position| p.in_bounds(arena) ==> occupied@.contains(p),
        },
        (exists|p: Position| p.in_bounds(arena) && !occupied@.contains(p)) ==> r is Some,
{
    let mut attempts: u32 = 0;
    while attempts < SPAWN_ATTEMPTS
        invariant
            arena.wf(),
        decreases SPAWN_ATTEMPTS - attempts,
    {
        let c = draw_cell(arena);
        if !contains_pos(occupied, c) {
            return Some(c);
        }
        attempts += 1;
    }
    find_free_cell(arena, occupied)
}

/// The food left over once every item on cell `head` has been eaten.
pub open spec fn remaining_after_eat(s: Seq<Position>, head: Position) -> Seq<Position> {
    s.filter(|q: Position| q != head)
}

/// How many food items eating at `head` consumes.
pub open spec fn eaten_count(s: Seq<Position>, head: Position) -> int {
    s.len() - remaining_after_eat(s, head).len()
}

/// Eating consumes between none and all of the food items.
pub proof fn lemma_eaten_count_bounds(s: Seq<Position>, head: Position)
    ensures
        0 <= eaten_count(s, head) <= s.len(),
{
    s.lemma_filter_len(|q: Position| q != head);
}

/// Whatever remains after eating was already on the board.
pub proof fn lemma_remaining_is_sub(s: Seq<Position>, head: Position)
    ensures
        forall|i: int|
            0 <= i < remaining_after_eat(s, head).len() ==> s.contains(
                #[trigger] remaining_after_eat(s, head)[i],
            ),
    decreases s.len(),
{
    reveal(Seq::filter);
    let pred = |q: Position| q != head;
    let out = remaining_after_eat(s, head);
    if s.len() > 0 {
        lemma_remaining_is_sub(s.drop_last(), head);
        let sub = remaining_after_eat(s.drop_last(), head);
        assert forall|i: int| 0 <= i < out.len() implies s.contains(out[i]) by {
            if i < sub.len() {
                assert(out[i] == sub[i]);
                assert(s.drop_last().contains(sub[i]));
                let j = choose|j: int|
                    0 <= j < s.drop_last().len() && s.drop_last()[j] == sub[i];
                assert(s[j] == sub[i]);
            } else {
                assert(out[i] == s.last());
                assert(s[s.len() - 1] == s.last());
            }
        }
    }
}

/// The set of active food cells.
pub struct FoodField {
    pub items: Vec<Position>,
}

impl FoodField {
    /// Every food item lies in the arena.
    pub open spec fn wf(self, arena: Arena) -> bool {
        forall|i: int| 0 <= i < self.items@.len() ==> self.items@[i].in_bounds(arena)
    }

    /// A board with no food on it.
    pub fn new() -> (f: FoodField)
        ensures
            f.items@.len() == 0,
    {
        FoodField { items: Vec::new() }
    }

    /// Add one food item at `p`. Overlap with existing food is not checked.
    pub fn add(&mut self, p: Position)
        ensures
            final(self).items@ == old(self).items@.push(p),
    {
        self.items.push(p);
    }

    /// Remove every food item on cell `head` — each item there independently
    /// counts as eaten — and report how many were removed.
    pub fn eat_at(&mut self, head: Position) -> (count: usize)
        ensures
            final(self).items@ == remaining_after_eat(old(self).items@, head),
            count == eaten_count(old(self).items@, head),
    {
        let n = self.items.len();
        let mut kept: Vec<Position> = Vec::new();
        let mut i: usize = 0;
        while i < n
            invariant
                i <= n,
                n == self.items@.len(),
                kept@ == remaining_after_eat(self.items@.subrange(0, i as int), head),
                kept@.len() <= i,
            decreases n - i,
        {
            let q = self.items[i];
            proof {
                let pred = |q: Position| q != head;
                let s0 = self.items@.subrange(0, i as int);
                let s1 = self.items@.subrange(0, i as int + 1);
                assert(s1.drop_last() =~= s0);
                assert(s1.last() == self.items@[i as int]);
                reveal(Seq::filter);
                if pred(self.items@[i as int]) {
                    assert(s1.filter(pred) == s0.filter(pred).push(self.items@[i as int]));
                } else {
                    assert(s1.filter(pred) == s0.filter(pred));
                }
            }
            if !(q == head) {
                kept.push(q);
            }
            i += 1;
        }
        proof {
            assert(self.items@.subrange(0, n as int) =~= self.items@);
        }
        let count = n - kept.len();
        self.items = kept;
        count
    }

    /// Destroy every active food item: the bulk clear at episode end.
    pub fn clear(&mut self)
        ensures
            final(self).items@.len() == 0,
    {
        self.items = Vec::new();
    }
}

} // verus!
