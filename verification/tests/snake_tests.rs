use snake_core::food::{spawn_position, FoodField};
use snake_core::game::{EpisodeState, Game};
use snake_core::geometry::{Arena, Direction, Position};
use snake_core::input::{InputBuffer, Key};
use snake_core::snake::{MoveOutcome, Snake};

fn arena15() -> Arena {
    Arena { width: 15, height: 15 }
}

fn pos(x: u32, y: u32) -> Position {
    Position { x, y }
}

fn game_with_snake(cells: Vec<Position>, direction: Direction, buffered: Direction) -> Game {
    Game {
        arena: arena15(),
        snake: Snake { segments: cells, direction },
        food: FoodField { items: Vec::new() },
        input: InputBuffer { dir: buffered },
        last_tail: None,
        num_eaten: 0,
        state: EpisodeState::Running,
        move_interval_ms: 200,
        move_countdown_ms: 200,
        food_interval_ms: 2000,
        food_countdown_ms: 2000,
    }
}

// Wraparound at every edge, and one interior step per direction; the
// coordinate orthogonal to the movement axis never changes.
#[test]
fn wraparound_left_edge() {
    let a = arena15();
    assert_eq!(pos(0, 3).step(Direction::Left, a), pos(14, 3));
    assert_eq!(pos(7, 3).step(Direction::Left, a), pos(6, 3));
}

#[test]
fn wraparound_right_edge() {
    let a = arena15();
    assert_eq!(pos(14, 8).step(Direction::Right, a), pos(0, 8));
    assert_eq!(pos(2, 8).step(Direction::Right, a), pos(3, 8));
}

#[test]
fn wraparound_bottom_edge() {
    let a = arena15();
    assert_eq!(pos(4, 0).step(Direction::Down, a), pos(4, 14));
    assert_eq!(pos(4, 9).step(Direction::Down, a), pos(4, 8));
}

#[test]
fn wraparound_top_edge() {
    let a = arena15();
    assert_eq!(pos(11, 14).step(Direction::Up, a), pos(11, 0));
    assert_eq!(pos(11, 5).step(Direction::Up, a), pos(11, 6));
}

#[test]
fn opposite_mapping_is_total() {
    assert_eq!(Direction::Up.opposite(), Direction::Down);
    assert_eq!(Direction::Down.opposite(), Direction::Up);
    assert_eq!(Direction::Left.opposite(), Direction::Right);
    assert_eq!(Direction::Right.opposite(), Direction::Left);
}

// Opposite-direction rejection: moving Right, buffering Left keeps the
// direction at Right and the snake moves right, with no self-collision.
#[test]
fn reversal_is_rejected() {
    let mut s = Snake { segments: vec![pos(5, 5), pos(4, 5)], direction: Direction::Right };
    let out = s.advance(arena15(), Direction::Left);
    assert_eq!(out, MoveOutcome::Moved(pos(6, 5)));
    assert_eq!(s.direction, Direction::Right);
    assert_eq!(s.segments, vec![pos(6, 5), pos(5, 5)]);
}

// Chain shift: after one non-colliding move, segment i holds the pre-move
// position of segment i-1 and the head holds the new cell.
#[test]
fn chain_shift_follows_the_leader() {
    let mut s = Snake {
        segments: vec![pos(6, 2), pos(6, 3), pos(7, 3), pos(8, 3)],
        direction: Direction::Down,
    };
    let out = s.advance(arena15(), Direction::Down);
    assert_eq!(out, MoveOutcome::Moved(pos(6, 1)));
    assert_eq!(s.segments, vec![pos(6, 1), pos(6, 2), pos(6, 3), pos(7, 3)]);
}

// Collision detection: a candidate head cell on the pre-move body reports
// GameOver and no segment moves.
#[test]
fn collision_reports_game_over_without_moving() {
    let mut s = Snake {
        segments: vec![pos(5, 5), pos(5, 6), pos(5, 7)],
        direction: Direction::Up,
    };
    let out = s.advance(arena15(), Direction::Up);
    assert_eq!(out, MoveOutcome::GameOver);
    assert_eq!(s.segments, vec![pos(5, 5), pos(5, 6), pos(5, 7)]);
}

// The input buffer: presses overwrite, releases and other keys are no-ops,
// reading does not consume.
#[test]
fn input_buffer_press_edges_only() {
    let mut b = InputBuffer::new();
    assert_eq!(b.read(), Direction::Up);
    b.on_key(Key::Left, true);
    assert_eq!(b.read(), Direction::Left);
    assert_eq!(b.read(), Direction::Left);
    b.on_key(Key::Right, false);
    assert_eq!(b.read(), Direction::Left);
    b.on_key(Key::Other, true);
    assert_eq!(b.read(), Direction::Left);
    b.set(Direction::Down);
    assert_eq!(b.read(), Direction::Down);
}

// Food placement: with every cell but one occupied, the spawner must return
// the single free cell, whatever the random draws did.
#[test]
fn spawn_returns_the_only_free_cell() {
    let a = Arena { width: 3, height: 3 };
    let mut occupied: Vec<Position> = Vec::new();
    for y in 0..3 {
        for x in 0..3 {
            if !(x == 1 && y == 2) {
                occupied.push(pos(x, y));
            }
        }
    }
    assert_eq!(spawn_position(a, &occupied), Some(pos(1, 2)));
}

#[test]
fn spawn_on_full_arena_is_skipped() {
    let a = Arena { width: 2, height: 2 };
    let occupied = vec![pos(0, 0), pos(1, 0), pos(0, 1), pos(1, 1)];
    assert_eq!(spawn_position(a, &occupied), None);
}

#[test]
fn spawn_avoids_occupied_cells() {
    let a = arena15();
    let occupied = vec![pos(3, 3), pos(3, 2)];
    for _ in 0..50 {
        let p = spawn_position(a, &occupied).unwrap();
        assert!(p.x < 15 && p.y < 15);
        assert!(!occupied.contains(&p));
    }
}

// Eating removes every item on the head cell, one count per item, and food
// elsewhere stays.
#[test]
fn eating_consumes_duplicates_independently() {
    let mut f = FoodField { items: vec![pos(2, 3), pos(5, 5), pos(2, 3)] };
    let count = f.eat_at(pos(2, 3));
    assert_eq!(count, 2);
    assert_eq!(f.items, vec![pos(5, 5)]);
}

// A fresh 15x15 session, no input buffered: one movement tick moves the
// head from (3,3) to (2,3) and the body segment onto (3,3).
#[test]
fn first_tick_moves_left() {
    let mut g = Game::new(arena15(), 200, 2000);
    assert_eq!(g.segment_positions(), vec![pos(3, 3), pos(3, 2)]);
    g.tick(200);
    assert_eq!(g.segment_positions(), vec![pos(2, 3), pos(3, 3)]);
    assert_eq!(g.status(), EpisodeState::Running);
}

// A head at (0,3) moving Left wraps to (14,3).
#[test]
fn wraparound_move_in_session() {
    let mut g = game_with_snake(vec![pos(0, 3), pos(1, 3)], Direction::Left, Direction::Left);
    g.movement_tick();
    assert_eq!(g.segment_positions(), vec![pos(14, 3), pos(0, 3)]);
}

// Moving Up into an occupied cell ends the episode, clears the whole
// board, and after the fixed delay a fresh canonical snake runs again.
#[test]
fn collision_clears_and_restarts() {
    let mut g = game_with_snake(
        vec![pos(5, 5), pos(5, 6), pos(5, 7)],
        Direction::Up,
        Direction::Up,
    );
    g.food.items.push(pos(9, 9));
    g.movement_tick();
    assert_eq!(g.status(), EpisodeState::Ending { remaining_ms: 1000 });
    assert_eq!(g.segment_positions(), Vec::new());
    assert_eq!(g.food_positions(), Vec::new());
    // the restart delay stalls the simulation clock
    g.tick(400);
    assert_eq!(g.status(), EpisodeState::Ending { remaining_ms: 600 });
    // input sampling keeps running while the episode ends
    g.key_input(Key::Down, true);
    g.tick(600);
    assert_eq!(g.status(), EpisodeState::Running);
    assert_eq!(g.segment_positions(), vec![pos(3, 3), pos(3, 2)]);
}

// The head moves onto an active food cell: the counter rises by one, the
// item disappears, and the snake comes out one segment longer, the new
// segment on the tail cell recorded during the eating tick.
#[test]
fn eating_grows_at_recorded_tail() {
    let mut g = game_with_snake(vec![pos(3, 3), pos(3, 2)], Direction::Left, Direction::Left);
    g.food.items.push(pos(2, 3));
    g.movement_tick();
    assert_eq!(g.eaten(), 1);
    assert_eq!(g.food_positions(), Vec::new());
    assert_eq!(g.segment_positions(), vec![pos(2, 3), pos(3, 3), pos(3, 2)]);
    // the next movement tick carries the longer chain forward
    g.movement_tick();
    assert_eq!(g.segment_positions(), vec![pos(1, 3), pos(2, 3), pos(3, 3)]);
    assert_eq!(g.eaten(), 1);
}

// Two food items on one cell each trigger removal and growth independently.
#[test]
fn doubled_food_counts_twice() {
    let mut g = game_with_snake(vec![pos(3, 3), pos(3, 2)], Direction::Left, Direction::Left);
    g.food.items.push(pos(2, 3));
    g.food.items.push(pos(2, 3));
    g.movement_tick();
    assert_eq!(g.eaten(), 2);
    assert_eq!(
        g.segment_positions(),
        vec![pos(2, 3), pos(3, 3), pos(3, 2), pos(3, 2)]
    );
}

// The movement countdown: nothing fires before it runs out, and what is
// buffered last is what the movement tick samples.
#[test]
fn countdown_gates_movement() {
    let mut g = Game::new(arena15(), 200, 2000);
    g.tick(199);
    assert_eq!(g.segment_positions(), vec![pos(3, 3), pos(3, 2)]);
    g.key_input(Key::Down, true);
    g.key_input(Key::Up, true);
    g.tick(1);
    // Up was buffered last; the head leaves (3,3) upward
    assert_eq!(g.segment_positions(), vec![pos(3, 4), pos(3, 3)]);
}

// The food countdown fires on its own slower clock and always adds exactly
// one item on a cell free of snake segments.
#[test]
fn food_spawns_on_its_own_clock() {
    let mut g = Game::new(arena15(), 200, 1000);
    let mut ms: u64 = 0;
    while ms < 999 {
        g.tick(1);
        ms += 1;
    }
    assert_eq!(g.food_positions().len(), 0);
    g.tick(1);
    let food = g.food_positions();
    assert_eq!(food.len(), 1);
    assert!(food[0].x < 15 && food[0].y < 15);
    assert!(!g.segment_positions().contains(&food[0]));
}

// Uncapped accumulation: uneaten food piles up, one item per firing.
#[test]
fn food_accumulates_without_cap() {
    let mut g = game_with_snake(vec![pos(3, 3), pos(3, 2)], Direction::Left, Direction::Left);
    g.food_interval_ms = 100;
    g.food_countdown_ms = 100;
    g.move_interval_ms = 1000000;
    g.move_countdown_ms = 1000000;
    for _ in 0..5 {
        g.tick(100);
    }
    assert_eq!(g.food_positions().len(), 5);
}

// The eaten counter persists across episodes; the fresh snake does not
// reset it.
#[test]
fn eaten_counter_survives_restart() {
    let mut g = game_with_snake(vec![pos(3, 3), pos(3, 2)], Direction::Left, Direction::Left);
    g.food.items.push(pos(2, 3));
    g.movement_tick();
    assert_eq!(g.eaten(), 1);
    // steer the snake into itself: Left, then force a reversal collision by
    // building the colliding state directly
    g.snake = Snake { segments: vec![pos(5, 5), pos(5, 6), pos(5, 7)], direction: Direction::Up };
    g.input = InputBuffer { dir: Direction::Up };
    g.movement_tick();
    assert!(matches!(g.status(), EpisodeState::Ending { .. }));
    g.tick(1000);
    assert_eq!(g.status(), EpisodeState::Running);
    assert_eq!(g.eaten(), 1);
}
