use snake_core::apple::Apple;
use snake_core::collision::penalty_size;
use snake_core::coordinate::{wrap_coordinate, Coordinate};
use snake_core::direction::Direction;
use snake_core::game::{Config, GameState, SetupError};
use snake_core::snake::{Id, Segment, Snake, SnakeColor};
use snake_core::win::WinTracker;

fn cell(x: i32, y: i32) -> Coordinate {
    Coordinate { x, y }
}

/// A snake whose segments stand on the given cells, head first.
fn make_snake(id: u8, cells: &[(i32, i32)], direction: Direction) -> Snake {
    let mut segments = Vec::new();
    for (i, &(x, y)) in cells.iter().enumerate() {
        segments.push(Segment {
            handle: 1000 * id as u64 + i as u64,
            coord: cell(x, y),
        });
    }
    let tail = *cells.last().unwrap();
    Snake {
        player_number: Id(id),
        name: "Tester",
        color: SnakeColor::LimeGreen,
        segments,
        direction,
        trail: cell(tail.0, tail.1),
        input_blocked: false,
        inmortal_ticks: 0,
    }
}

/// A round built directly from parts, with apples parked far from the action.
fn make_game(snakes: Vec<Snake>, config: Config) -> GameState {
    let apples = vec![
        Apple { coord: cell(-6, -6) },
        Apple { coord: cell(-6, 6) },
        Apple { coord: cell(6, -6) },
        Apple { coord: cell(6, 6) },
    ];
    GameState {
        win: WinTracker {
            current: None,
            remaining: config.hold_ticks,
        },
        config,
        snakes,
        apples,
        winner: None,
        next_handle: 100_000,
    }
}

#[test]
fn scenario_single_snake_moves_right() {
    // H=7, snake length 1 at (0,0) facing Right: after one tick the head is
    // at (1,0) and the trail is (0,0).
    let config = Config::default();
    let mut game = make_game(vec![make_snake(1, &[(0, 0)], Direction::Right)], config);
    let ev = game.tick();
    assert_eq!(game.snakes[0].segments.len(), 1);
    assert_eq!(game.snakes[0].segments[0].coord, cell(1, 0));
    assert_eq!(game.snakes[0].trail, cell(0, 0));
    assert!(ev.penalized.is_empty());
    assert!(ev.apple_eaten.is_none());
}

#[test]
fn scenario_head_on_head_both_penalized() {
    // Two heads land on (3,3) in the same tick: both snakes are penalized
    // and both gain invulnerability.
    let config = Config::default();
    let a = make_snake(1, &[(2, 3)], Direction::Right);
    let b = make_snake(2, &[(4, 3)], Direction::Left);
    let mut game = make_game(vec![a, b], config);
    let ev = game.tick();
    assert_eq!(game.snakes[0].segments[0].coord, cell(3, 3));
    assert_eq!(game.snakes[1].segments[0].coord, cell(3, 3));
    assert_eq!(game.snakes[0].inmortal_ticks, 10);
    assert_eq!(game.snakes[1].inmortal_ticks, 10);
    assert_eq!(ev.penalized, vec![Id(1), Id(2)]);
    // A penalty never drops the length below one.
    assert_eq!(game.snakes[0].segments.len(), 1);
    assert_eq!(game.snakes[1].segments.len(), 1);
}

#[test]
fn scenario_length_four_loses_two_segments() {
    // A snake of length 4 that hits loses ceil(4 * 0.3) = 2 segments and is
    // invulnerable for 10 ticks; overlap during those ticks adds no penalty.
    let config = Config::default();
    // Snake 2's post-move body holds (0,0) and (0,1); snake 1's head moves
    // onto (0,1).
    let a = make_snake(1, &[(-1, 1), (-2, 1), (-3, 1), (-4, 1)], Direction::Right);
    let b = make_snake(2, &[(0, 0), (0, 1), (0, 2)], Direction::Down);
    let mut game = make_game(vec![a, b], config);
    let ev = game.tick();
    assert_eq!(game.snakes[0].segments[0].coord, cell(0, 1));
    assert_eq!(ev.penalized, vec![Id(1)]);
    assert_eq!(game.snakes[0].segments.len(), 2);
    assert_eq!(game.snakes[0].inmortal_ticks, 10);
    assert_eq!(game.snakes[1].segments.len(), 3);
    assert_eq!(game.snakes[1].inmortal_ticks, 0);

    // Park snake 1 so that its next move lands on snake 2's body again: the
    // invulnerable snake takes no further penalty while its countdown runs.
    game.snakes[0].segments[0].coord = cell(-1, -1);
    let ev2 = game.tick();
    assert!(ev2.penalized.is_empty());
    assert_eq!(game.snakes[0].segments.len(), 2);
    assert_eq!(game.snakes[0].inmortal_ticks, 9);
}

#[test]
fn penalty_of_short_snake_keeps_one_segment() {
    // Hitting with length 1 removes nothing: the length never drops below 1.
    let config = Config::default();
    let a = make_snake(1, &[(2, 3)], Direction::Right);
    let b = make_snake(2, &[(4, 3)], Direction::Left);
    let mut game = make_game(vec![a, b], config);
    game.tick();
    assert_eq!(game.snakes[0].segments.len(), 1);
    assert_eq!(game.snakes[1].segments.len(), 1);
}

#[test]
fn scenario_no_leader_below_threshold() {
    // Leader length 9 against rival length 5 with threshold 10: no
    // provisional leader despite the gap.
    let mut config = Config::default();
    config.win_length = 10;
    let long_cells: Vec<(i32, i32)> = (0..9).map(|i| (i - 4, 5)).collect();
    let short_cells: Vec<(i32, i32)> = (0..5).map(|i| (i - 2, -5)).collect();
    let a = make_snake(1, &long_cells, Direction::Up);
    let b = make_snake(2, &short_cells, Direction::Down);
    let mut game = make_game(vec![a, b], config);
    game.tick();
    assert_eq!(game.win.current, None);
    assert_eq!(game.win.remaining, config.hold_ticks);
    assert!(game.winner.is_none());
}

#[test]
fn scenario_tie_resets_hold_timer() {
    // A leader of length 12 (threshold 10) holds for one evaluation short of
    // the full duration; the rival then ties, the timer resets, and Won does
    // not fire for that hold period.
    let hold = 5;
    let leader = Some(Id(1));
    let mut w = WinTracker {
        current: None,
        remaining: hold,
    };
    // The leader appears: identity change, timer reset, no win.
    assert!(!w.step(leader, hold));
    assert_eq!(w.current, leader);
    assert_eq!(w.remaining, hold);
    // hold - 1 evaluations with the same leader: the timer counts down.
    for i in 1..hold {
        assert!(!w.step(leader, hold));
        assert_eq!(w.remaining, hold - i);
    }
    assert_eq!(w.remaining, 1);
    // The rival ties: no sole leader any more, the timer resets, Won does
    // not fire.
    assert!(!w.step(None, hold));
    assert_eq!(w.current, None);
    assert_eq!(w.remaining, hold);
    // Won fires only after a full uninterrupted hold with the same leader.
    assert!(!w.step(leader, hold));
    for _ in 1..hold {
        assert!(!w.step(leader, hold));
    }
    assert!(w.step(leader, hold));
}

#[test]
fn win_through_game_tick() {
    // A sole leader above the threshold wins after the full hold duration.
    let mut config = Config::default();
    config.win_length = 3;
    config.hold_ticks = 3;
    let long_cells: Vec<(i32, i32)> = (0..4).map(|i| (i - 5, 5)).collect();
    let a = make_snake(1, &long_cells, Direction::Up);
    let b = make_snake(2, &[(3, -5)], Direction::Down);
    let mut game = make_game(vec![a, b], config);
    let e1 = game.tick();
    assert!(e1.winner.is_none());
    let e2 = game.tick();
    assert!(e2.winner.is_none());
    let e3 = game.tick();
    assert!(e3.winner.is_none());
    let e4 = game.tick();
    assert_eq!(e4.winner, Some(Id(1)));
    assert_eq!(game.winner, Some(Id(1)));
    // Won is emitted exactly once: the round has ended.
    let e5 = game.tick();
    assert!(e5.winner.is_none());
    assert_eq!(game.winner, Some(Id(1)));
}

#[test]
fn apple_consumption_grows_exactly_one_snake() {
    // Consuming one apple grows exactly one snake by exactly one segment and
    // relocates exactly one apple.
    let config = Config::default();
    let a = make_snake(1, &[(1, 6), (0, 6)], Direction::Right);
    let b = make_snake(2, &[(0, -6), (-1, -6)], Direction::Right);
    let mut game = make_game(vec![a, b], config);
    // Snake 1's head will stand on (2,6); put an apple there.
    game.apples[1] = Apple { coord: cell(2, 6) };
    let ev = game.tick();
    assert_eq!(ev.apple_eaten, Some(Id(1)));
    assert_eq!(game.snakes[0].segments.len(), 3);
    assert_eq!(game.snakes[1].segments.len(), 2);
    // The grown segment stands on the trail cell the tail just vacated.
    assert_eq!(game.snakes[0].segments[2].coord, cell(0, 6));
    // Exactly one apple was relocated; all four stay on the board, inside
    // the spawn range.
    assert_eq!(game.apples.len(), 4);
    for apple in &game.apples {
        assert!(apple.coord.x >= -7 && apple.coord.x < 7);
        assert!(apple.coord.y >= -7 && apple.coord.y < 7);
    }
    assert_eq!(game.apples[0].coord, cell(-6, -6));
    assert_eq!(game.apples[2].coord, cell(6, -6));
    assert_eq!(game.apples[3].coord, cell(6, 6));
}

#[test]
fn no_consumption_changes_no_lengths() {
    let config = Config::default();
    let a = make_snake(1, &[(1, 0), (0, 0)], Direction::Right);
    let b = make_snake(2, &[(0, 3), (-1, 3)], Direction::Right);
    let mut game = make_game(vec![a, b], config);
    let ev = game.tick();
    assert!(ev.apple_eaten.is_none());
    assert_eq!(game.snakes[0].segments.len(), 2);
    assert_eq!(game.snakes[1].segments.len(), 2);
    assert_eq!(game.apples[0].coord, cell(-6, -6));
    assert_eq!(game.apples[1].coord, cell(-6, 6));
    assert_eq!(game.apples[2].coord, cell(6, -6));
    assert_eq!(game.apples[3].coord, cell(6, 6));
}

#[test]
fn at_most_one_apple_per_tick() {
    // Two snakes each stand on an apple, but only the first in board order
    // consumes; at most one apple is consumed per tick system-wide.
    let config = Config::default();
    let a = make_snake(1, &[(1, 6), (0, 6)], Direction::Right);
    let b = make_snake(2, &[(0, -6), (-1, -6)], Direction::Right);
    let mut game = make_game(vec![a, b], config);
    game.apples[0] = Apple { coord: cell(2, 6) };
    game.apples[1] = Apple { coord: cell(1, -6) };
    let ev = game.tick();
    assert_eq!(ev.apple_eaten, Some(Id(1)));
    assert_eq!(game.snakes[0].segments.len(), 3);
    assert_eq!(game.snakes[1].segments.len(), 2);
    assert_eq!(game.apples[1].coord, cell(1, -6));
}

#[test]
fn movement_reuses_tail_handle() {
    // Movement rotates the tail segment to the front: the new head keeps the
    // old tail's identity handle, and nothing is allocated.
    let config = Config::default();
    let snake = make_snake(1, &[(0, 0), (-1, 0), (-2, 0)], Direction::Right);
    let tail_handle = snake.segments[2].handle;
    let head_handle = snake.segments[0].handle;
    let mut game = make_game(vec![snake], config);
    game.tick();
    assert_eq!(game.snakes[0].segments[0].handle, tail_handle);
    assert_eq!(game.snakes[0].segments[1].handle, head_handle);
    assert_eq!(game.snakes[0].segments[0].coord, cell(1, 0));
}

#[test]
fn toroidal_wrap_at_edges() {
    assert_eq!(wrap_coordinate(cell(8, 0), 7), cell(-7, 0));
    assert_eq!(wrap_coordinate(cell(-8, 3), 7), cell(7, 3));
    assert_eq!(wrap_coordinate(cell(0, 8), 7), cell(0, -7));
    assert_eq!(wrap_coordinate(cell(4, -9), 7), cell(4, 7));
    assert_eq!(wrap_coordinate(cell(7, -7), 7), cell(7, -7));
}

#[test]
fn wrap_around_collision_detected() {
    // Collisions read fully wrapped coordinates: a head that wraps across
    // the edge onto another snake's body is a hit.
    let config = Config::default();
    let a = make_snake(1, &[(7, 0)], Direction::Right);
    let b = make_snake(2, &[(-7, -1), (-7, 0), (-7, 1)], Direction::Down);
    let mut game = make_game(vec![a, b], config);
    let ev = game.tick();
    // Snake 1's head wraps to (-7, 0), snake 2's body holds (-7, -1) and
    // (-7, 0) after its own move.
    assert_eq!(game.snakes[0].segments[0].coord, cell(-7, 0));
    assert_eq!(ev.penalized, vec![Id(1)]);
    assert_eq!(game.snakes[0].inmortal_ticks, 10);
}

#[test]
fn segments_stay_in_bounds_over_many_ticks() {
    // Every segment coordinate satisfies |x| <= H and |y| <= H after wrap,
    // on every tick.
    let config = Config::default();
    let mut game = GameState::new(config, 4).unwrap();
    let players = vec![Id(1), Id(2), Id(3), Id(4)];
    for _ in 0..200 {
        game.ai_propose_all(&players);
        game.tick();
        for snake in &game.snakes {
            for segment in &snake.segments {
                assert!(segment.coord.x.abs() <= 7);
                assert!(segment.coord.y.abs() <= 7);
            }
            assert!(snake.trail.x.abs() <= 7);
            assert!(snake.trail.y.abs() <= 7);
        }
    }
}

#[test]
fn setup_rejects_bad_configuration() {
    let good = Config::default();

    let mut bad = good;
    bad.half_len = 0;
    assert!(matches!(GameState::new(bad, 2), Err(SetupError::InvalidHalfExtent)));

    let mut bad = good;
    bad.half_len = -7;
    assert!(matches!(GameState::new(bad, 2), Err(SetupError::InvalidHalfExtent)));

    let mut bad = good;
    bad.win_length = 0;
    assert!(matches!(GameState::new(bad, 2), Err(SetupError::InvalidWinLength)));

    let mut bad = good;
    bad.hold_ticks = 0;
    assert!(matches!(GameState::new(bad, 2), Err(SetupError::InvalidHoldDuration)));

    assert!(matches!(GameState::new(good, 0), Err(SetupError::InvalidPlayerCount)));
    assert!(matches!(GameState::new(good, 5), Err(SetupError::InvalidPlayerCount)));
}

#[test]
fn setup_spawns_fixed_slots() {
    let game = GameState::new(Config::default(), 4).unwrap();
    assert_eq!(game.snakes.len(), 4);

    let expected = [
        (Id(1), cell(-3, -3), Direction::Right, "Ninja", cell(-4, -3)),
        (Id(2), cell(3, 3), Direction::Left, "Panther", cell(4, 3)),
        (Id(3), cell(-3, 3), Direction::Down, "Sushi", cell(-3, 4)),
        (Id(4), cell(3, -3), Direction::Up, "Sonic", cell(3, -4)),
    ];
    for (snake, (id, coord, direction, name, trail)) in game.snakes.iter().zip(expected) {
        assert_eq!(snake.player_number, id);
        assert_eq!(snake.segments.len(), 1);
        assert_eq!(snake.segments[0].coord, coord);
        assert_eq!(snake.direction, direction);
        assert_eq!(snake.name, name);
        assert_eq!(snake.trail, trail);
        assert_eq!(snake.input_blocked, false);
        assert_eq!(snake.inmortal_ticks, 0);
    }

    // Four apples, scattered within the spawn range.
    assert_eq!(game.apples.len(), 4);
    for apple in &game.apples {
        assert!(apple.coord.x >= -7 && apple.coord.x < 7);
        assert!(apple.coord.y >= -7 && apple.coord.y < 7);
    }

    // Two players spawn only the first two slots.
    let two = GameState::new(Config::default(), 2).unwrap();
    assert_eq!(two.snakes.len(), 2);
    assert_eq!(two.snakes[1].player_number, Id(2));
}

#[test]
fn default_configuration_values() {
    let config = Config::default();
    assert_eq!(config.half_len, 7);
    assert_eq!(config.win_length, 10);
    assert_eq!(config.hold_ticks, 100);
    assert_eq!(config.inmortal_ticks, 10);
}

#[test]
fn small_board_wraps_spawn_cells() {
    // On a board of half extent 2 the fixed slot cells wrap onto the board,
    // so the round still starts well formed.
    let mut config = Config::default();
    config.half_len = 2;
    let game = GameState::new(config, 4).unwrap();
    for snake in &game.snakes {
        assert!(snake.segments[0].coord.x.abs() <= 2);
        assert!(snake.segments[0].coord.y.abs() <= 2);
        assert!(snake.trail.x.abs() <= 2);
        assert!(snake.trail.y.abs() <= 2);
    }
    // Slot 1 spawns at (-3,-3), which wraps to (2,2).
    assert_eq!(game.snakes[0].segments[0].coord, cell(2, 2));
}

#[test]
fn penalty_formula_is_exact() {
    // A hit removes ceil(length * 3 / 10) segments, stopping before the
    // length would drop below one.
    assert_eq!(penalty_size(1), 0);
    assert_eq!(penalty_size(2), 1);
    assert_eq!(penalty_size(3), 1);
    assert_eq!(penalty_size(4), 2);
    assert_eq!(penalty_size(10), 3);
    assert_eq!(penalty_size(11), 4);
    assert_eq!(penalty_size(20), 6);
    assert_eq!(penalty_size(33), 10);
}

#[test]
fn wrap_is_identity_on_the_board() {
    for x in -7..=7 {
        for y in -7..=7 {
            assert_eq!(wrap_coordinate(cell(x, y), 7), cell(x, y));
        }
    }
    // A coordinate far past an edge lands on the opposite edge.
    assert_eq!(wrap_coordinate(cell(100, -100), 7), cell(-7, 7));
}
