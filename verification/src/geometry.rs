//! The arena: a fixed-size 2D coordinate space with wraparound addressing,
//! together with cell positions and the four movement directions.

use vstd::prelude::*;

verus! {

/// The fixed coordinate space the simulation runs in. Coordinates wrap at the
/// edges, so the arena is a torus.
#[derive(Clone, Copy, PartialEq, Eq, Structural, Debug)]
pub struct Arena {
    pub width: u32,
    pub height: u32,
}

impl Arena {
    /// A usable arena has positive extent on both axes.
    pub open spec fn wf(self) -> bool {
        self.width > 0 && self.height > 0
    }
}

/// One cell of the arena, addressed by column `x` and row `y`.
#[derive(Clone, Copy, PartialEq, Eq, Structural, Debug)]
pub struct Position {
    pub x: u32,
    pub y: u32,
}

/// The four movement directions. `Up` increases `y`, `Down` decreases it.
#[derive(Clone, Copy, PartialEq, Eq, Structural, Debug)]
pub enum Direction {
    Up,
    Down,
    Left,
    Right,
}

/// The direction pointing the other way: Up and Down swap, Left and Right swap.
pub open spec fn opposite_of(d: Direction) -> Direction {
    match d {
        Direction::Left => Direction::Right,
        Direction::Right => Direction::Left,
        Direction::Up => Direction::Down,
        Direction::Down => Direction::Up,
    }
}

impl Direction {
    /// The direction pointing the other way.
    pub fn opposite(self) -> (r: Direction)
        ensures
            r == opposite_of(self),
    {
        match self {
            Direction::Left => Direction::Right,
            Direction::Right => Direction::Left,
            Direction::Up => Direction::Down,
            Direction::Down => Direction::Up,
        }
    }
}

/// Decrement with wraparound: stepping below zero lands on `dim - 1`.
pub open spec fn wrap_dec(c: int, dim: int) -> int {
    if c == 0 {
        dim - 1
    } else {
        c - 1
    }
}

/// Increment with wraparound: stepping at or beyond `dim` lands on zero.
pub open spec fn wrap_inc(c: int, dim: int) -> int {
    if c + 1 >= dim {
        0
    } else {
        c + 1
    }
}

/// Where one step from `p` in direction `d` lands. The `x` and `y` axes wrap
/// independently, using the arena's width and height respectively.
pub open spec fn step_of(p: Position, d: Direction, arena: Arena) -> Position {
    match d {
        Direction::Left => Position { x: wrap_dec(p.x as int, arena.width as int) as u32, y: p.y },
        Direction::Right => Position { x: wrap_inc(p.x as int, arena.width as int) as u32, y: p.y },
        Direction::Down => Position { x: p.x, y: wrap_dec(p.y as int, arena.height as int) as u32 },
        Direction::Up => Position { x: p.x, y: wrap_inc(p.y as int, arena.height as int) as u32 },
    }
}

impl Position {
    /// The cell lies inside the arena.
    pub open spec fn in_bounds(self, arena: Arena) -> bool {
        self.x < arena.width && self.y < arena.height
    }

    /// One step from this cell in direction `d`, with toroidal wraparound.
    pub fn step(self, d: Direction, arena: Arena) -> (r: Position)
        requires
            arena.wf(),
            self.in_bounds(arena),
        ensures
            r == step_of(self, d, arena),
            r.in_bounds(arena),
    {
        match d {
            Direction::Left => Position {
                x: if self.x == 0 { arena.width - 1 } else { self.x - 1 },
                y: self.y,
            },
            Direction::Right => Position {
                x: if self.x + 1 >= arena.width { 0 } else { self.x + 1 },
                y: self.y,
            },
            Direction::Down => Position {
                x: self.x,
                y: if self.y == 0 { arena.height - 1 } else { self.y - 1 },
            },
            Direction::Up => Position {
                x: self.x,
                y: if self.y + 1 >= arena.height { 0 } else { self.y + 1 },
            },
        }
    }
}

/// Whether any position in `v` equals `p`.
pub fn contains_pos(v: &Vec<Position>, p: Position) -> (r: bool)
    ensures
        r == v@.contains(p),
{
    let mut k: usize = 0;
    while k < v.len()
        invariant
            k <= v@.len(),
            forall|i: int| 0 <= i < k ==> v@[i] != p,
        decreases v@.len() - k,
    {
        if v[k] == p {
            proof {
                assert(v@[k as int] == p);
            }
            return true;
        }
        k += 1;
    }
    false
}

/// Wraparound law: stepping past a boundary lands on coordinate zero, stepping
/// before zero lands on `dimension - 1`, one step otherwise moves by exactly
/// one cell, and the coordinate orthogonal to the movement axis is unaffected.
pub proof fn lemma_step_wraparound(p: Position, d: Direction, arena: Arena)
    requires
        arena.wf(),
        p.in_bounds(arena),
    ensures
        step_of(p, d, arena).in_bounds(arena),
        d == Direction::Left ==> step_of(p, d, arena).y == p.y && (if p.x == 0 {
            step_of(p, d, arena).x == arena.width - 1
        } else {
            step_of(p, d, arena).x == p.x - 1
        }),
        d == Direction::Right ==> step_of(p, d, arena).y == p.y && (if p.x + 1 == arena.width {
            step_of(p, d, arena).x == 0
        } else {
            step_of(p, d, arena).x == p.x + 1
        }),
        d == Direction::Down ==> step_of(p, d, arena).x == p.x && (if p.y == 0 {
            step_of(p, d, arena).y == arena.height - 1
        } else {
            step_of(p, d, arena).y == p.y - 1
        }),
        d == Direction::Up ==> step_of(p, d, arena).x == p.x && (if p.y + 1 == arena.height {
            step_of(p, d, arena).y == 0
        } else {
            step_of(p, d, arena).y == p.y + 1
        }),
{
}

} // verus!
