use snake_core::coordinate::Coordinate;
use snake_core::direction::Direction;
use snake_core::game::{Config, GameState};
use snake_core::snake::{Id, Segment, Snake, SnakeColor};
use snake_core::win::provisional_leader;

fn cell(x: i32, y: i32) -> Coordinate {
    Coordinate { x, y }
}

fn make_snake(id: u8, cells: &[(i32, i32)], direction: Direction) -> Snake {
    let mut segments = Vec::new();
    for (i, &(x, y)) in cells.iter().enumerate() {
        segments.push(Segment {
            handle: 1000 * id as u64 + i as u64,
            coord: cell(x, y),
        });
    }
    let tail = *cells.last().unwrap();
    Snake {
        player_number: Id(id),
        name: "Tester",
        color: SnakeColor::Pink,
        segments,
        direction,
        trail: cell(tail.0, tail.1),
        input_blocked: false,
        inmortal_ticks: 0,
    }
}

#[test]
fn reversal_is_ignored() {
    // A snake's direction is never set to the exact opposite of its current
    // direction.
    let mut game = GameState::new(Config::default(), 1).unwrap();
    assert_eq!(game.snakes[0].direction, Direction::Right);
    game.propose_direction(Id(1), Direction::Left);
    assert_eq!(game.snakes[0].direction, Direction::Right);
    assert!(!game.snakes[0].input_blocked);
}

#[test]
fn at_most_one_turn_per_tick() {
    // The first accepted turn locks the snake for the tick; later intents,
    // valid or not, change nothing until the next tick resets the lock.
    let mut game = GameState::new(Config::default(), 1).unwrap();
    game.propose_direction(Id(1), Direction::Up);
    assert_eq!(game.snakes[0].direction, Direction::Up);
    assert!(game.snakes[0].input_blocked);
    game.propose_direction(Id(1), Direction::Down);
    assert_eq!(game.snakes[0].direction, Direction::Up);
    game.propose_direction(Id(1), Direction::Left);
    assert_eq!(game.snakes[0].direction, Direction::Up);
    // The next tick resets the lock; a new turn is accepted again.
    game.tick();
    assert!(!game.snakes[0].input_blocked);
    game.propose_direction(Id(1), Direction::Right);
    assert_eq!(game.snakes[0].direction, Direction::Right);
}

#[test]
fn current_direction_is_silently_ignored() {
    // Submitting the already-current direction never sets the input lock and
    // never changes state.
    let mut game = GameState::new(Config::default(), 1).unwrap();
    let before = game.snakes[0].segments.clone();
    game.propose_direction(Id(1), Direction::Right);
    assert_eq!(game.snakes[0].direction, Direction::Right);
    assert!(!game.snakes[0].input_blocked);
    assert_eq!(game.snakes[0].segments, before);
    // The lock stays free: a real turn is still accepted this tick.
    game.propose_direction(Id(1), Direction::Up);
    assert_eq!(game.snakes[0].direction, Direction::Up);
}

#[test]
fn unknown_player_is_ignored() {
    // An invalid player id in a direction intent is ignored, non-fatal.
    let mut game = GameState::new(Config::default(), 2).unwrap();
    game.propose_direction(Id(9), Direction::Up);
    assert_eq!(game.snakes[0].direction, Direction::Right);
    assert_eq!(game.snakes[1].direction, Direction::Left);
}

#[test]
fn provisional_leader_needs_sole_longest() {
    let threshold = 3;
    let a = make_snake(1, &[(0, 0), (1, 0), (2, 0), (3, 0)], Direction::Up);
    let b = make_snake(2, &[(0, 5), (1, 5)], Direction::Up);
    let snakes = vec![a, b];
    assert_eq!(provisional_leader(&snakes, threshold), Some(Id(1)));

    // A tie at the top yields no provisional leader.
    let a = make_snake(1, &[(0, 0), (1, 0)], Direction::Up);
    let b = make_snake(2, &[(0, 5), (1, 5)], Direction::Up);
    let snakes = vec![a, b];
    assert_eq!(provisional_leader(&snakes, 2), None);
}

#[test]
fn scoreboard_sorted_by_length_descending() {
    let a = make_snake(1, &[(0, 0)], Direction::Up);
    let b = make_snake(2, &[(0, 2), (1, 2), (2, 2)], Direction::Up);
    let c = make_snake(3, &[(0, 4), (1, 4)], Direction::Up);
    let mut game = GameState::new(Config::default(), 3).unwrap();
    game.snakes = vec![a, b, c];
    let board = game.scoreboard();
    let lengths: Vec<usize> = board.iter().map(|e| e.length).collect();
    assert_eq!(lengths, vec![3, 2, 1]);
    assert_eq!(board[0].color, SnakeColor::Pink);
    let mut names: Vec<&str> = board.iter().map(|e| e.name).collect();
    names.sort();
    assert_eq!(names, vec!["Tester", "Tester", "Tester"]);
}

#[test]
fn ai_heads_toward_apple() {
    // A lone computer snake at (0,0) facing Up with the only useful apple to
    // its right either turns right or keeps its direction; it never turns
    // into a direction pointing away.
    let mut game = GameState::new(Config::default(), 1).unwrap();
    game.snakes[0].segments[0].coord = cell(0, 0);
    game.snakes[0].direction = Direction::Up;
    for apple in game.apples.iter_mut() {
        apple.coord = cell(3, 0);
    }
    for _ in 0..50 {
        game.snakes[0].input_blocked = false;
        game.snakes[0].direction = Direction::Up;
        game.ai_propose_all(&vec![Id(1)]);
        let d = game.snakes[0].direction;
        assert!(d == Direction::Up || d == Direction::Right);
    }
}

#[test]
fn ai_flips_across_the_wrap() {
    // The apple is 10 cells away on a board of half extent 7: the wrapped
    // path is shorter, so the horizontal intent flips from Right to Left.
    let mut game = GameState::new(Config::default(), 1).unwrap();
    game.snakes[0].segments[0].coord = cell(-5, 0);
    game.snakes[0].direction = Direction::Up;
    for apple in game.apples.iter_mut() {
        apple.coord = cell(5, 0);
    }
    for _ in 0..50 {
        game.snakes[0].input_blocked = false;
        game.snakes[0].direction = Direction::Up;
        game.ai_propose_all(&vec![Id(1)]);
        let d = game.snakes[0].direction;
        assert!(d == Direction::Up || d == Direction::Left);
    }
}

#[test]
fn invulnerability_window_ends_after_duration() {
    // The countdown decrements exactly once per tick; the tick on which it
    // reaches zero reports the window's end.
    let config = Config::default();
    let a = make_snake(1, &[(2, 3)], Direction::Right);
    let b = make_snake(2, &[(4, 3)], Direction::Left);
    let mut game = GameState::new(config, 2).unwrap();
    game.snakes = vec![a, b];
    let ev = game.tick();
    assert_eq!(ev.penalized, vec![Id(1), Id(2)]);
    assert_eq!(game.snakes[0].inmortal_ticks, 10);
    for expected in (0..10).rev() {
        let ev = game.tick();
        assert_eq!(game.snakes[0].inmortal_ticks, expected);
        if expected == 0 {
            assert!(ev.invulnerability_ended.contains(&Id(1)));
            assert!(ev.invulnerability_ended.contains(&Id(2)));
        } else {
            assert!(ev.invulnerability_ended.is_empty());
        }
    }
}
