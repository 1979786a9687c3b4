//! The simulation session: one mutable state holding the snake, the food,
//! the input buffer and the counters, updated by plain function calls. Two
//! independent countdowns drive the movement step and the food-spawn step;
//! the episode state machine clears the board on a terminal collision, waits
//! a fixed delay, and respawns a fresh snake.

use vstd::prelude::*;
use crate::geometry::{Arena, Direction, Position, opposite_of};
use crate::snake::{
    MoveOutcome, Snake, distinct_seq, lemma_shift_distinct, next_head_of, resolved_dir,
    shift_of, start_body, start_head, START_HEAD_X, START_HEAD_Y,
};
use crate::food::{
    FoodField, eaten_count, lemma_eaten_count_bounds, remaining_after_eat, spawn_position,
};
use crate::input::{InputBuffer, Key, buffered_after};

verus! {

/// How long the board stays cleared between a terminal collision and the
/// respawn of a fresh snake, in milliseconds.
pub const RESTART_DELAY_MS: u64 = 1000;

/// The episode state machine. `Running` ticks the simulation; `Ending` holds
/// the cleared board while the restart delay counts down; `Restarting` is
/// the transient state in which the fresh snake is spawned, left again
/// before the tick returns.
#[derive(Clone, Copy, PartialEq, Eq, Structural, Debug)]
pub enum EpisodeState {
    Running,
    Ending { remaining_ms: u64 },
    Restarting,
}

/// The mathematical image of a whole session state.
#[verifier::ext_equal]
pub struct GameView {
    pub arena: Arena,
    pub segments: Seq<Position>,
    pub direction: Direction,
    pub buffered: Direction,
    pub food: Seq<Position>,
    pub last_tail: Option<Position>,
    pub num_eaten: u64,
    pub state: EpisodeState,
    pub move_interval_ms: u64,
    pub move_countdown_ms: u64,
    pub food_interval_ms: u64,
    pub food_countdown_ms: u64,
}

/// The candidate head cell of the next movement step.
pub open spec fn candidate_head(v: GameView) -> Position {
    next_head_of(v.segments, v.direction, v.arena, v.buffered)
}

/// Whether the next movement step collides: the candidate head cell is
/// already held by one of the pre-move segments.
pub open spec fn move_collides(v: GameView) -> bool {
    v.segments.contains(candidate_head(v))
}

/// Functional model of one movement tick while `Running`: sample the buffered
/// command, resolve the direction, capture the pre-move tail cell, then
/// either end the episode (collision: the board is cleared wholesale and the
/// restart delay armed) or shift the chain, eat every food item on the new
/// head cell, and append one tail segment per item eaten — on the cell the
/// tail held before this tick's shift.
pub open spec fn after_movement(v: GameView) -> GameView {
    let dir = resolved_dir(v.direction, v.buffered);
    let h = candidate_head(v);
    let tail = v.segments.last();
    if move_collides(v) {
        GameView {
            segments: Seq::empty(),
            direction: dir,
            food: Seq::empty(),
            last_tail: Some(tail),
            state: EpisodeState::Ending { remaining_ms: RESTART_DELAY_MS },
            ..v
        }
    } else {
        let eaten = eaten_count(v.food, h);
        GameView {
            segments: shift_of(v.segments, h) + Seq::new(eaten as nat, |k: int| tail),
            direction: dir,
            food: remaining_after_eat(v.food, h),
            last_tail: Some(tail),
            num_eaten: (v.num_eaten + eaten) as u64,
            ..v
        }
    }
}

/// The session state once the movement axis of one scheduler tick has been
/// served: either the movement countdown ran out — it rewinds to the
/// movement interval and one movement tick fires — or it merely shrinks by
/// the elapsed time.
pub open spec fn after_move_axis(v: GameView, elapsed_ms: u64) -> GameView {
    if elapsed_ms >= v.move_countdown_ms {
        after_movement(GameView { move_countdown_ms: v.move_interval_ms, ..v })
    } else {
        GameView { move_countdown_ms: (v.move_countdown_ms - elapsed_ms) as u64, ..v }
    }
}

/// Whether some arena cell is free of snake segments — the condition under
/// which a food spawn is owed.
pub open spec fn has_free_cell(v: GameView) -> bool {
    exists|p: Position| p.in_bounds(v.arena) && !v.segments.contains(p)
}

/// The state after the deferred restart: a fresh two-segment snake in the
/// canonical starting configuration, both countdowns rewound to their
/// intervals, the episode running again. The buffered command and the eaten
/// counter persist across episodes.
pub open spec fn respawned(v: GameView) -> GameView {
    GameView {
        segments: seq![start_head(), start_body()],
        direction: Direction::Left,
        state: EpisodeState::Running,
        move_countdown_ms: v.move_interval_ms,
        food_countdown_ms: v.food_interval_ms,
        ..v
    }
}

/// Session invariant: the arena is usable and large enough for the canonical
/// spawn, the countdowns sit between one and their intervals, every cell held
/// by the snake or by food lies in the arena, a snake exists exactly while
/// the episode runs, and an ending episode holds a cleared board.
pub open spec fn view_wf(v: GameView) -> bool {
    &&& v.arena.wf()
    &&& START_HEAD_X < v.arena.width
    &&& START_HEAD_Y < v.arena.height
    &&& 1 <= v.move_interval_ms
    &&& 1 <= v.food_interval_ms
    &&& 1 <= v.move_countdown_ms <= v.move_interval_ms
    &&& 1 <= v.food_countdown_ms <= v.food_interval_ms
    &&& match v.state {
        EpisodeState::Running => v.segments.len() >= 1,
        EpisodeState::Ending { remaining_ms } => v.segments.len() == 0 && v.food.len() == 0 && 1
            <= remaining_ms <= RESTART_DELAY_MS,
        EpisodeState::Restarting => false,
    }
    &&& forall|i: int| 0 <= i < v.segments.len() ==> v.segments[i].in_bounds(v.arena)
    &&& forall|i: int| 0 <= i < v.food.len() ==> v.food[i].in_bounds(v.arena)
    &&& (v.last_tail is Some ==> v.last_tail.unwrap().in_bounds(v.arena))
}

/// One simulation session.
pub struct Game {
    pub arena: Arena,
    pub snake: Snake,
    pub food: FoodField,
    pub input: InputBuffer,
    /// The cell the tail held before the current tick's shift; growth target.
    pub last_tail: Option<Position>,
    /// Monotonically increasing count of food items consumed. Observational:
    /// never read by the simulation logic itself, never reset.
    pub num_eaten: u64,
    pub state: EpisodeState,
    pub move_interval_ms: u64,
    /// Movement fires when this countdown runs out, then it rewinds.
    pub move_countdown_ms: u64,
    pub food_interval_ms: u64,
    /// Food spawning fires when this countdown runs out, then it rewinds.
    pub food_countdown_ms: u64,
}

impl View for Game {
    type V = GameView;

    open spec fn view(&self) -> GameView {
        GameView {
            arena: self.arena,
            segments: self.snake.segments@,
            direction: self.snake.direction,
            buffered: self.input.dir,
            food: self.food.items@,
            last_tail: self.last_tail,
            num_eaten: self.num_eaten,
            state: self.state,
            move_interval_ms: self.move_interval_ms,
            move_countdown_ms: self.move_countdown_ms,
            food_interval_ms: self.food_interval_ms,
            food_countdown_ms: self.food_countdown_ms,
        }
    }
}

impl Game {
    /// Session invariant, established by `new` and preserved by every method.
    pub open spec fn wf(self) -> bool {
        view_wf(self@)
    }

    /// A fresh session: the canonical snake, an empty board, both countdowns
    /// wound to their intervals, and the buffered command equal to the
    /// snake's facing, so an idle buffer commands straight-ahead motion.
    pub fn new(arena: Arena, move_interval_ms: u64, food_interval_ms: u64) -> (g: Game)
        requires
            arena.wf(),
            START_HEAD_X < arena.width,
            START_HEAD_Y < arena.height,
            1 <= move_interval_ms,
            1 <= food_interval_ms,
        ensures
            g.wf(),
            g@.arena == arena,
            g@.segments =~= seq![start_head(), start_body()],
            g@.direction == Direction::Left,
            g@.buffered == Direction::Left,
            g@.food.len() == 0,
            g@.last_tail is None,
            g@.num_eaten == 0,
            g@.state is Running,
            g@.move_interval_ms == move_interval_ms,
            g@.move_countdown_ms == move_interval_ms,
            g@.food_interval_ms == food_interval_ms,
            g@.food_countdown_ms == food_interval_ms,
    {
        Game {
            arena,
            snake: Snake::spawn(),
            food: FoodField::new(),
            input: InputBuffer { dir: Direction::Left },
            last_tail: None,
            num_eaten: 0,
            state: EpisodeState::Running,
            move_interval_ms,
            move_countdown_ms: move_interval_ms,
            food_interval_ms,
            food_countdown_ms: food_interval_ms,
        }
    }

    /// Feed one key transition into the input buffer. Sampling is continuous:
    /// this may be called at any time, in any episode state, and only the
    /// buffered command changes.
    pub fn key_input(&mut self, key: Key, pressed: bool)
        ensures
            final(self)@ =~= (GameView {
                buffered: buffered_after(old(self)@.buffered, key, pressed),
                ..old(self)@
            }),
            old(self).wf() ==> final(self).wf(),
    {
        self.input.on_key(key, pressed);
    }

    /// One full movement tick: sample the buffered command, move the snake,
    /// resolve eating, apply growth — strictly in that order, since each step
    /// depends on state the prior one produced. Outside `Running` it is a
    /// no-op. On a terminal collision the episode enters `Ending`: the whole
    /// board is cleared and the restart delay armed.
    #[verifier::loop_isolation(false)]
    pub fn movement_tick(&mut self)
        requires
            old(self).wf(),
            old(self)@.num_eaten + old(self)@.food.len() <= u64::MAX,
        ensures
            final(self).wf(),
            old(self)@.state is Running ==> final(self)@ == after_movement(old(self)@),
            !(old(self)@.state is Running) ==> final(self)@ == old(self)@,
    {
        match self.state {
            EpisodeState::Running => {},
            _ => {
                return ;
            },
        }
        let buffered = self.input.read();
        let prev_tail = self.snake.tail();
        self.last_tail = Some(prev_tail);
        let out = self.snake.advance(self.arena, buffered);
        match out {
            MoveOutcome::GameOver => {
                self.snake.clear();
                self.food.clear();
                self.state = EpisodeState::Ending { remaining_ms: RESTART_DELAY_MS };
                proof {
                    assert(old(self)@.segments.last() == old(self)@.segments[old(
                        self,
                    )@.segments.len() - 1]);
                    assert(self@ =~= after_movement(old(self)@));
                }
            },
            MoveOutcome::Moved(h) => {
                let count = self.food.eat_at(h);
                proof {
                    crate::food::lemma_eaten_count_bounds(old(self)@.food, h);
                }
                self.num_eaten = self.num_eaten + count as u64;
                let mut g: usize = 0;
                while g < count
                    invariant
                        g <= count,
                        self.snake.segments@ == shift_of(old(self)@.segments, h) + Seq::new(
                            g as nat,
                            |k: int| prev_tail,
                        ),
                        self.snake.direction == resolved_dir(
                            old(self)@.direction,
                            old(self)@.buffered,
                        ),
                        self.food.items@ == remaining_after_eat(old(self)@.food, h),
                        self.num_eaten == old(self)@.num_eaten + count,
                        self.last_tail == Some(prev_tail),
                        self.state == old(self)@.state,
                        self.arena == old(self)@.arena,
                        self.input.dir == old(self)@.buffered,
                        self.move_interval_ms == old(self)@.move_interval_ms,
                        self.move_countdown_ms == old(self)@.move_countdown_ms,
                        self.food_interval_ms == old(self)@.food_interval_ms,
                        self.food_countdown_ms == old(self)@.food_countdown_ms,
                    decreases count - g,
                {
                    self.snake.grow(prev_tail);
                    proof {
                        assert(Seq::new((g + 1) as nat, |k: int| prev_tail) =~= Seq::new(
                            g as nat,
                            |k: int| prev_tail,
                        ).push(prev_tail));
                    }
                    g += 1;
                }
                proof {
                    assert(self@ =~= after_movement(old(self)@));
                    assert forall|i: int|
                        0 <= i < self@.segments.len() implies self@.segments[i].in_bounds(
                        self@.arena,
                    ) by {
                        let shifted = shift_of(old(self)@.segments, h);
                        if i < shifted.len() {
                            if i == 0 {
                                assert(self@.segments[i] == h);
                            } else {
                                assert(self@.segments[i] == old(self)@.segments[i - 1]);
                            }
                        } else {
                            assert(self@.segments[i] == prev_tail);
                            assert(prev_tail == old(self)@.segments[old(self)@.segments.len()
                                - 1]);
                        }
                    }
                    assert(prev_tail == old(self)@.segments[old(self)@.segments.len() - 1]);
                    crate::food::lemma_remaining_is_sub(old(self)@.food, h);
                    assert forall|i: int|
                        0 <= i < self@.food.len() implies self@.food[i].in_bounds(
                        self@.arena,
                    ) by {
                        assert(old(self)@.food.contains(self@.food[i]));
                        let j = choose|j: int|
                            0 <= j < old(self)@.food.len() && old(self)@.food[j] == self@.food[i];
                        assert(old(self)@.food[j].in_bounds(old(self)@.arena));
                    }
                }
            },
        }
    }

    /// Advance the scheduler by `elapsed_ms` of wall-clock time. While the
    /// episode runs, the movement countdown and the food-spawn countdown run
    /// independently off this one clock; each fires its step when its
    /// countdown runs out and then rewinds to its own interval. While the
    /// episode ends, the simulation clock is stalled: only the restart delay
    /// counts down, and once it runs out a fresh snake spawns in the
    /// canonical configuration and the episode runs again. A movement step
    /// that ends the episode stalls the food clock within the same call.
    /// Food is spawned on a cell free of snake segments whenever one exists;
    /// on a board whose every cell is covered by the snake, the spawn is
    /// skipped.
    #[verifier::rlimit(50)]
    pub fn tick(&mut self, elapsed_ms: u64)
        requires
            old(self).wf(),
            old(self)@.num_eaten + old(self)@.food.len() <= u64::MAX,
        ensures
            final(self).wf(),
            (old(self)@.state matches EpisodeState::Ending { remaining_ms } ==> (if elapsed_ms
                < remaining_ms {
                final(self)@ =~= (GameView {
                    state: EpisodeState::Ending {
                        remaining_ms: (remaining_ms - elapsed_ms) as u64,
                    },
                    ..old(self)@
                })
            } else {
                final(self)@ =~= respawned(old(self)@)
            })),
            old(self)@.state is Running && !(after_move_axis(old(self)@, elapsed_ms).state
                is Running) ==> final(self)@ =~= after_move_axis(old(self)@, elapsed_ms),
            old(self)@.state is Running && after_move_axis(old(self)@, elapsed_ms).state
                is Running && elapsed_ms < after_move_axis(old(self)@, elapsed_ms).food_countdown_ms
                ==> final(self)@ =~= (GameView {
                food_countdown_ms: (after_move_axis(old(self)@, elapsed_ms).food_countdown_ms
                    - elapsed_ms) as u64,
                ..after_move_axis(old(self)@, elapsed_ms)
            }),
            old(self)@.state is Running && after_move_axis(old(self)@, elapsed_ms).state
                is Running && elapsed_ms >= after_move_axis(old(self)@, elapsed_ms).food_countdown_ms
                && !has_free_cell(after_move_axis(old(self)@, elapsed_ms)) ==> final(self)@ =~= (
            GameView {
                food_countdown_ms: after_move_axis(old(self)@, elapsed_ms).food_interval_ms,
                ..after_move_axis(old(self)@, elapsed_ms)
            }),
            old(self)@.state is Running && after_move_axis(old(self)@, elapsed_ms).state
                is Running && elapsed_ms >= after_move_axis(old(self)@, elapsed_ms).food_countdown_ms
                && has_free_cell(after_move_axis(old(self)@, elapsed_ms)) ==> ({
                let g1 = after_move_axis(old(self)@, elapsed_ms);
                let spawned = final(self)@.food.last();
                &&& final(self)@ =~= (GameView {
                    food: g1.food.push(spawned),
                    food_countdown_ms: g1.food_interval_ms,
                    ..g1
                })
                &&& spawned.in_bounds(g1.arena)
                &&& !g1.segments.contains(spawned)
            }),
    {
        match self.state {
            EpisodeState::Ending { remaining_ms } => {
                if elapsed_ms < remaining_ms {
                    self.state = EpisodeState::Ending {
                        remaining_ms: remaining_ms - elapsed_ms,
                    };
                } else {
                    // the transient restart: clear board was already done on
                    // entering Ending; spawn the fresh snake and run again
                    self.state = EpisodeState::Restarting;
                    self.snake = Snake::spawn();
                    self.move_countdown_ms = self.move_interval_ms;
                    self.food_countdown_ms = self.food_interval_ms;
                    self.state = EpisodeState::Running;
                    proof {
                        assert(self@ =~= respawned(old(self)@));
                    }
                }
            },
            EpisodeState::Restarting => {
                proof {
                    assert(false);
                }
            },
            EpisodeState::Running => {
                let ghost v0 = self@;
                if elapsed_ms >= self.move_countdown_ms {
                    self.move_countdown_ms = self.move_interval_ms;
                    proof {
                        assert(self@ =~= (GameView {
                            move_countdown_ms: v0.move_interval_ms,
                            ..v0
                        }));
                    }
                    self.movement_tick();
                } else {
                    self.move_countdown_ms = self.move_countdown_ms - elapsed_ms;
                    proof {
                        assert(self@ =~= (GameView {
                            move_countdown_ms: (v0.move_countdown_ms - elapsed_ms) as u64,
                            ..v0
                        }));
                    }
                }
                let ghost g1 = after_move_axis(v0, elapsed_ms);
                proof {
                    assert(self@ == g1);
                }
                match self.state {
                    EpisodeState::Running => {
                        if elapsed_ms >= self.food_countdown_ms {
                            self.food_countdown_ms = self.food_interval_ms;
                            let ghost g2 = GameView { food_countdown_ms: g1.food_interval_ms, ..g1 };
                            proof {
                                assert(self@ =~= g2);
                            }
                            let spawned = spawn_position(self.arena, &self.snake.segments);
                            match spawned {
                                Some(p) => {
                                    self.food.add(p);
                                    proof {
                                        assert(p.in_bounds(g1.arena) && !g1.segments.contains(p));
                                        assert(exists|q: Position|
                                            q.in_bounds(g1.arena) && !g1.segments.contains(q));
                                        assert(self@.food.last() == p);
                                        assert(self@ =~= (GameView { food: g2.food.push(p), ..g2 }));
                                    }
                                },
                                None => {
                                    proof {
                                        assert(!(exists|q: Position|
                                            q.in_bounds(g1.arena) && !g1.segments.contains(q)));
                                    }
                                },
                            }
                        } else {
                            self.food_countdown_ms = self.food_countdown_ms - elapsed_ms;
                            proof {
                                assert(self@ =~= (GameView {
                                    food_countdown_ms: (g1.food_countdown_ms - elapsed_ms) as u64,
                                    ..g1
                                }));
                            }
                        }
                    },
                    _ => {},
                }
            },
        }
    }

    /// Read-only projection: the current segment cells, head first. Empty
    /// while no snake exists.
    pub fn segment_positions(&self) -> (r: Vec<Position>)
        ensures
            r@ == self@.segments,
    {
        copy_positions(&self.snake.segments)
    }

    /// Read-only projection: the active food cells.
    pub fn food_positions(&self) -> (r: Vec<Position>)
        ensures
            r@ == self@.food,
    {
        copy_positions(&self.food.items)
    }

    /// Read-only projection: the episode status.
    pub fn status(&self) -> (s: EpisodeState)
        ensures
            s == self@.state,
    {
        self.state
    }

    /// Read-only projection: how many food items have been eaten.
    pub fn eaten(&self) -> (n: u64)
        ensures
            n == self@.num_eaten,
    {
        self.num_eaten
    }
}

/// A copy of the positions in `v`, for read-only projections.
fn copy_positions(v: &Vec<Position>) -> (r: Vec<Position>)
    ensures
        r@ == v@,
{
    let mut r: Vec<Position> = Vec::new();
    let mut i: usize = 0;
    while i < v.len()
        invariant
            i <= v@.len(),
            r@ =~= v@.subrange(0, i as int),
        decreases v@.len() - i,
    {
        r.push(v[i]);
        proof {
            assert(v@.subrange(0, i + 1) =~= v@.subrange(0, i as int).push(v@[i as int]));
        }
        i += 1;
    }
    proof {
        assert(v@.subrange(0, v@.len() as int) =~= v@);
    }
    r
}


/// Opposite-direction rejection: buffering the exact reversal of the current
/// direction leaves the direction unchanged, and the tick behaves exactly as
/// if the buffer still held the current direction — reversal can never cause
/// a collision that going straight ahead would not also cause. Only the
/// untouched buffer itself distinguishes the two outcomes.
pub proof fn lemma_reversal_rejected(v: GameView)
    requires
        v.buffered == opposite_of(v.direction),
    ensures
        resolved_dir(v.direction, v.buffered) == v.direction,
        after_movement(v) =~= (GameView {
            buffered: v.buffered,
            ..after_movement(GameView { buffered: v.direction, ..v })
        }),
{
    assert(opposite_of(v.direction) != v.direction);
}

/// Collision detection, at episode level: when the candidate head cell lies
/// on the pre-move body, the movement tick ends the episode — the board is
/// cleared wholesale, the restart delay armed, and the eaten counter kept.
pub proof fn lemma_collision_ends_episode(v: GameView)
    requires
        move_collides(v),
    ensures
        after_movement(v).state == (EpisodeState::Ending { remaining_ms: RESTART_DELAY_MS }),
        after_movement(v).segments.len() == 0,
        after_movement(v).food.len() == 0,
        after_movement(v).num_eaten == v.num_eaten,
{
}

/// Growth placement: a non-colliding movement tick appends exactly one
/// segment per food item eaten, and every appended segment sits on the cell
/// the tail occupied before this tick's shift — not on the post-move tail.
pub proof fn lemma_growth_placement(v: GameView)
    requires
        v.segments.len() >= 1,
        !move_collides(v),
    ensures
        after_movement(v).segments.len() == v.segments.len() + eaten_count(
            v.food,
            candidate_head(v),
        ),
        forall|i: int|
            v.segments.len() <= i < after_movement(v).segments.len() ==> after_movement(
                v,
            ).segments[i] == v.segments.last(),
{
    let h = candidate_head(v);
    lemma_eaten_count_bounds(v.food, h);
    let shifted = shift_of(v.segments, h);
    let eaten = eaten_count(v.food, h);
    let appended = Seq::new(eaten as nat, |k: int| v.segments.last());
    assert(shifted.len() == v.segments.len());
    assert forall|i: int|
        v.segments.len() <= i < after_movement(v).segments.len() implies after_movement(
        v,
    ).segments[i] == v.segments.last() by {
        assert(after_movement(v).segments[i] == appended[i - shifted.len()]);
    }
}

/// The body-distinctness invariant of the data model: a movement tick keeps
/// all segment cells distinct, provided at most one food item sits on the
/// cell the head moves onto. (Two food items on one cell raise two growth
/// signals for the same captured tail cell, which would stack two segments
/// there; the spawner never checks food against food, so that case is real.)
pub proof fn lemma_movement_preserves_distinct(v: GameView)
    requires
        v.segments.len() >= 1,
        distinct_seq(v.segments),
        eaten_count(v.food, candidate_head(v)) <= 1,
    ensures
        distinct_seq(after_movement(v).segments),
{
    if !move_collides(v) {
        let h = candidate_head(v);
        let tail = v.segments.last();
        lemma_eaten_count_bounds(v.food, h);
        lemma_shift_distinct(v.segments, h);
        let shifted = shift_of(v.segments, h);
        let eaten = eaten_count(v.food, h);
        let out = after_movement(v).segments;
        if eaten == 0 {
            assert(out =~= shifted);
        } else {
            assert(out =~= shifted.push(tail));
            assert forall|i: int, j: int| 0 <= i < j < out.len() implies out[i] != out[j] by {
                if j == shifted.len() {
                    assert(out[j] == tail);
                    assert(out[i] == shifted[i]);
                    if shifted[i] == tail {
                        assert(shifted.contains(tail));
                    }
                }
            }
        }
    }
}


} // verus!
