//! The snake: an ordered chain of segment positions (index 0 is the head)
//! plus a facing direction. Owns movement and growth behaviour.

use vstd::prelude::*;
use crate::geometry::{Arena, Direction, Position, opposite_of, step_of};

verus! {

/// Column of the cell the head starts on at episode start.
pub const START_HEAD_X: u32 = 3;

/// Row of the cell the head starts on at episode start.
pub const START_HEAD_Y: u32 = 3;

/// Column of the single body segment the snake starts with.
pub const START_BODY_X: u32 = 3;

/// Row of the single body segment the snake starts with.
pub const START_BODY_Y: u32 = 2;

/// The cell the head starts on.
pub open spec fn start_head() -> Position {
    Position { x: START_HEAD_X, y: START_HEAD_Y }
}

/// The cell the starting body segment sits on, directly below the head.
pub open spec fn start_body() -> Position {
    Position { x: START_BODY_X, y: START_BODY_Y }
}

/// What one movement step reported: the head moved to the given cell, or the
/// candidate head cell was already part of the body and the episode is over.
#[derive(Clone, Copy, PartialEq, Eq, Structural, Debug)]
pub enum MoveOutcome {
    Moved(Position),
    GameOver,
}

/// The direction a movement step actually takes: a buffered command that
/// would reverse the current direction is rejected and the current direction
/// kept; any other command replaces it.
pub open spec fn resolved_dir(current: Direction, buffered: Direction) -> Direction {
    if buffered == opposite_of(current) {
        current
    } else {
        buffered
    }
}

/// The candidate head cell for a move of a chain whose head is `segments[0]`.
pub open spec fn next_head_of(
    segments: Seq<Position>,
    current: Direction,
    arena: Arena,
    buffered: Direction,
) -> Position {
    step_of(segments[0], resolved_dir(current, buffered), arena)
}

/// The chain after a non-colliding move onto `h`: the head takes `h`, every
/// other segment takes the cell the segment ahead of it held before the move,
/// and the old tail cell is vacated.
pub open spec fn shift_of(segments: Seq<Position>, h: Position) -> Seq<Position> {
    seq![h] + segments.drop_last()
}

/// No two cells of the chain coincide.
pub open spec fn distinct_seq(s: Seq<Position>) -> bool {
    forall|i: int, j: int| 0 <= i < j < s.len() ==> s[i] != s[j]
}

/// Shifting a distinct chain onto a fresh head cell keeps its cells distinct,
/// and the vacated tail cell is held by no segment of the shifted chain.
pub proof fn lemma_shift_distinct(segments: Seq<Position>, h: Position)
    requires
        segments.len() >= 1,
        distinct_seq(segments),
        !segments.contains(h),
    ensures
        distinct_seq(shift_of(segments, h)),
        !shift_of(segments, h).contains(segments.last()),
{
    let out = shift_of(segments, h);
    assert forall|i: int, j: int| 0 <= i < j < out.len() implies out[i] != out[j] by {
        if i == 0 {
            assert(out[j] == segments[j - 1]);
            assert(!segments.contains(h));
            assert(segments[j - 1] != h) by {
                if segments[j - 1] == h {
                    assert(segments.contains(h));
                }
            }
        } else {
            assert(out[i] == segments[i - 1] && out[j] == segments[j - 1]);
        }
    }
    assert forall|k: int| 0 <= k < out.len() implies out[k] != segments.last() by {
        assert(segments.last() == segments[segments.len() - 1]);
        if k == 0 {
            if h == segments.last() {
                assert(segments.contains(h));
            }
        } else {
            assert(out[k] == segments[k - 1]);
            assert(k - 1 < segments.len() - 1);
        }
    }
}

/// The snake. Segments are exclusively owned by the chain; an empty chain
/// stands for a destroyed snake between episodes.
pub struct Snake {
    pub segments: Vec<Position>,
    pub direction: Direction,
}

impl Snake {
    /// A live snake has at least a head, and every segment lies in the arena.
    pub open spec fn wf(self, arena: Arena) -> bool {
        &&& self.segments@.len() >= 1
        &&& forall|i: int| 0 <= i < self.segments@.len() ==> self.segments@[i].in_bounds(arena)
    }

    /// No two segments share a cell.
    pub open spec fn distinct(self) -> bool {
        distinct_seq(self.segments@)
    }

    /// The head cell as seen by specifications.
    pub open spec fn head_spec(self) -> Position {
        self.segments@[0]
    }

    /// A fresh snake in the canonical starting configuration: the head with
    /// one body segment directly below it, facing left.
    pub fn spawn() -> (s: Snake)
        ensures
            s.segments@ =~= seq![start_head(), start_body()],
            s.direction == Direction::Left,
            s.distinct(),
    {
        let mut segments: Vec<Position> = Vec::new();
        segments.push(Position { x: START_HEAD_X, y: START_HEAD_Y });
        segments.push(Position { x: START_BODY_X, y: START_BODY_Y });
        Snake { segments, direction: Direction::Left }
    }

    /// The head cell (index 0).
    pub fn head(&self) -> (p: Position)
        requires
            self.segments@.len() >= 1,
        ensures
            p == self.head_spec(),
    {
        self.segments[0]
    }

    /// The tail cell (the last segment).
    pub fn tail(&self) -> (p: Position)
        requires
            self.segments@.len() >= 1,
        ensures
            p == self.segments@.last(),
    {
        self.segments[self.segments.len() - 1]
    }

    /// Number of segments in the chain.
    pub fn len(&self) -> (n: usize)
        ensures
            n == self.segments@.len(),
    {
        self.segments.len()
    }

    /// One movement step, commanded by the buffered direction. A command that
    /// would reverse the current direction is rejected and the snake keeps
    /// going the way it faces. The head steps one cell with wraparound; if
    /// the candidate cell is already held by one of the pre-move segments the
    /// step reports a terminal collision and the chain does not move;
    /// otherwise each segment follows the one ahead of it and the head takes
    /// the candidate cell.
    pub fn advance(&mut self, arena: Arena, buffered: Direction) -> (out: MoveOutcome)
        requires
            arena.wf(),
            old(self).wf(arena),
        ensures
            final(self).wf(arena),
            final(self).segments@.len() == old(self).segments@.len(),
            final(self).direction == resolved_dir(old(self).direction, buffered),
            ({
                let h = next_head_of(old(self).segments@, old(self).direction, arena, buffered);
                if old(self).segments@.contains(h) {
                    out == MoveOutcome::GameOver && final(self).segments@ == old(self).segments@
                } else {
                    &&& out == MoveOutcome::Moved(h)
                    &&& final(self).segments@ == shift_of(old(self).segments@, h)
                    &&& final(self).segments@[0] == h
                    &&& forall|i: int|
                        1 <= i < old(self).segments@.len() ==> final(self).segments@[i]
                            == old(self).segments@[i - 1]
                    &&& old(self).distinct() ==> final(self).distinct()
                    &&& old(self).distinct() ==> !final(self).segments@.contains(
                        old(self).segments@.last(),
                    )
                }
            }),
    {
        let opp = self.direction.opposite();
        let dir = if buffered == opp {
            self.direction
        } else {
            buffered
        };
        self.direction = dir;
        let h = self.segments[0].step(dir, arena);
        if crate::geometry::contains_pos(&self.segments, h) {
            MoveOutcome::GameOver
        } else {
            let n = self.segments.len();
            let mut shifted: Vec<Position> = Vec::new();
            shifted.push(h);
            let mut j: usize = 0;
            while j < n - 1
                invariant
                    n == self.segments@.len(),
                    1 <= n,
                    j <= n - 1,
                    shifted@ =~= seq![h] + self.segments@.subrange(0, j as int),
                decreases n - 1 - j,
            {
                shifted.push(self.segments[j]);
                proof {
                    assert(self.segments@.subrange(0, j + 1) =~= self.segments@.subrange(
                        0,
                        j as int,
                    ).push(self.segments@[j as int]));
                }
                j += 1;
            }
            proof {
                assert(self.segments@.subrange(0, n - 1) =~= self.segments@.drop_last());
                if old(self).distinct() {
                    lemma_shift_distinct(self.segments@, h);
                }
            }
            self.segments = shifted;
            MoveOutcome::Moved(h)
        }
    }

    /// Append one segment at `p`: the growth step, handed the cell the tail
    /// held before the current tick's shift. Touches nothing else.
    pub fn grow(&mut self, p: Position)
        ensures
            final(self).segments@ == old(self).segments@.push(p),
            final(self).direction == old(self).direction,
    {
        self.segments.push(p);
    }

    /// Remove every segment: the wholesale destruction at episode end.
    pub fn clear(&mut self)
        ensures
            final(self).segments@.len() == 0,
            final(self).direction == old(self).direction,
    {
        self.segments = Vec::new();
    }
}

} // verus!
