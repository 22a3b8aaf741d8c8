//! The round state and the tick pipeline. One call to `tick` runs the fixed
//! phase order: reset input locks and decrement invulnerability, move every
//! snake and wrap, detect collisions and penalize, consume at most one apple
//! and grow, then evaluate the win tracker.

use vstd::prelude::*;

use crate::apple::{eat_apple, first_pair, lemma_first_pair_bounds, Apple};
use crate::arbitration::{arbitrated, propose_direction};
use crate::collision::{after_collisions, collide_and_penalize, penalized_ids, takes_penalty, views_of};
use crate::coordinate::{
    coordinate_in_bounds, in_spawn_range, wrap_coordinate, wrap_spec, Coordinate, MAX_HALF_LEN,
};
use crate::direction::Direction;
use crate::rng::random_cell;
use crate::snake::{Id, Segment, Snake, SnakeColor, SnakeView};
use crate::win::{leader_of, provisional_leader, WinTracker};
use crate::MAX_NUMBER_OF_PLAYERS;

verus! {

/// How many apples lie on the board at any time.
pub const NUMBER_OF_APPLES: usize = 4;

/// Round configuration. All fields are validated at round setup.
#[derive(Clone, Copy, Debug, PartialEq, Eq, Structural)]
pub struct Config {
    /// Board half extent: cells span [-half_len, half_len] on both axes.
    pub half_len: i32,
    /// A snake must reach this length to become provisional leader.
    pub win_length: usize,
    /// How many win evaluations an unchanged leader must survive to win.
    pub hold_ticks: u32,
    /// How many ticks a penalized snake stays invulnerable.
    pub inmortal_ticks: u8,
}

impl Config {
    /// The configuration is well formed.
    pub open spec fn valid(self) -> bool {
        &&& 1 <= self.half_len <= MAX_HALF_LEN
        &&& self.win_length >= 1
        &&& self.hold_ticks >= 1
    }
}

impl Default for Config {
    /// The default configuration: half extent 7, win length 10, a hold of
    /// 100 evaluations and 10 invulnerability ticks.
    fn default() -> (c: Config)
        ensures
            c == (Config { half_len: 7, win_length: 10, hold_ticks: 100, inmortal_ticks: 10 }),
            c.valid(),
    {
        Config { half_len: 7, win_length: 10, hold_ticks: 100, inmortal_ticks: 10 }
    }
}

/// Why a round could not be set up: a configuration defect, fatal at setup.
#[derive(Clone, Copy, Debug, PartialEq, Eq, Structural)]
pub enum SetupError {
    /// The board half extent is not in 1..=MAX_HALF_LEN.
    InvalidHalfExtent,
    /// The win length threshold is zero.
    InvalidWinLength,
    /// The hold duration is zero evaluations.
    InvalidHoldDuration,
    /// The number of players is not in 1..=MAX_NUMBER_OF_PLAYERS.
    InvalidPlayerCount,
}

/// The configuration defect a setup with these arguments reports, if any.
pub open spec fn setup_defect(config: Config, number_of_players: usize) -> Option<SetupError> {
    if config.half_len < 1 || config.half_len > MAX_HALF_LEN {
        Some(SetupError::InvalidHalfExtent)
    } else if config.win_length < 1 {
        Some(SetupError::InvalidWinLength)
    } else if config.hold_ticks < 1 {
        Some(SetupError::InvalidHoldDuration)
    } else if number_of_players < 1 || number_of_players > MAX_NUMBER_OF_PLAYERS {
        Some(SetupError::InvalidPlayerCount)
    } else {
        None
    }
}

/// The player id of spawn slot `slot` (slots count from zero).
pub open spec fn slot_id(slot: int) -> Id {
    Id((slot + 1) as u8)
}

/// The fixed spawn cell of slot `slot`, before wrapping onto small boards.
pub open spec fn slot_coord(slot: int) -> Coordinate {
    if slot == 0 {
        Coordinate { x: -3i32, y: -3i32 }
    } else if slot == 1 {
        Coordinate { x: 3i32, y: 3i32 }
    } else if slot == 2 {
        Coordinate { x: -3i32, y: 3i32 }
    } else {
        Coordinate { x: 3i32, y: -3i32 }
    }
}

/// The fixed spawn direction of slot `slot`.
pub open spec fn slot_direction(slot: int) -> Direction {
    if slot == 0 {
        Direction::Right
    } else if slot == 1 {
        Direction::Left
    } else if slot == 2 {
        Direction::Down
    } else {
        Direction::Up
    }
}

/// The fixed colour of slot `slot`.
pub open spec fn slot_color(slot: int) -> SnakeColor {
    if slot == 0 {
        SnakeColor::LimeGreen
    } else if slot == 1 {
        SnakeColor::Pink
    } else if slot == 2 {
        SnakeColor::Salmon
    } else {
        SnakeColor::Turquoise
    }
}

/// The fixed name of slot `slot`.
pub open spec fn slot_name(slot: int) -> Seq<char> {
    if slot == 0 {
        "Ninja"@
    } else if slot == 1 {
        "Panther"@
    } else if slot == 2 {
        "Sushi"@
    } else {
        "Sonic"@
    }
}

/// The freshly spawned snake of slot `slot`: one segment on the slot's
/// wrapped spawn cell, facing the slot's direction, the trail one cell
/// behind, unlocked and vulnerable.
pub open spec fn spawn_snake_view(slot: int, half_len: int) -> SnakeView {
    let base = wrap_spec(slot_coord(slot), half_len);
    let d = slot_direction(slot);
    let behind = Coordinate {
        x: (base.x - d.spec_delta().0) as i32,
        y: (base.y - d.spec_delta().1) as i32,
    };
    SnakeView {
        player_number: slot_id(slot),
        name: slot_name(slot),
        color: slot_color(slot),
        segments: seq![Segment { handle: slot as u64, coord: base }],
        direction: d,
        trail: wrap_spec(behind, half_len),
        input_blocked: false,
        inmortal_ticks: 0,
    }
}

/// Every snake after the tick's opening phase: input locks reset and
/// invulnerability countdowns decremented, saturating at zero.
pub open spec fn begun(s: SnakeView) -> SnakeView {
    SnakeView {
        input_blocked: false,
        inmortal_ticks: if s.inmortal_ticks == 0 {
            0u8
        } else {
            (s.inmortal_ticks - 1) as u8
        },
        ..s
    }
}

/// The opening phase over the whole round.
pub open spec fn phase_begin(vs: Seq<SnakeView>) -> Seq<SnakeView> {
    Seq::new(vs.len(), |i: int| begun(vs[i]))
}

/// The player ids, among the first `upto` snakes, whose invulnerability ends
/// this tick (countdown one, reaching zero).
pub open spec fn ended_ids(vs: Seq<SnakeView>, upto: int) -> Seq<Id>
    decreases upto,
{
    if upto <= 0 {
        Seq::empty()
    } else if vs[upto - 1].inmortal_ticks == 1 {
        ended_ids(vs, upto - 1).push(vs[upto - 1].player_number)
    } else {
        ended_ids(vs, upto - 1)
    }
}

/// The movement phase over the whole round: every snake advances one cell,
/// using only coordinates observed at tick start, and wraps onto the board.
pub open spec fn phase_move(vs: Seq<SnakeView>, half_len: int) -> Seq<SnakeView> {
    Seq::new(vs.len(), |i: int| vs[i].moved(half_len))
}

/// The index of the first snake with player id `id`, from `from` on.
pub open spec fn find_snake(vs: Seq<SnakeView>, id: Id, from: int) -> Option<int>
    decreases vs.len() - from,
{
    if from < 0 || from >= vs.len() {
        None
    } else if vs[from].player_number == id {
        Some(from)
    } else {
        find_snake(vs, id, from + 1)
    }
}

/// What one tick reports to the collaborators around the simulation.
pub struct TickEvents {
    /// Players whose invulnerability window ended this tick.
    pub invulnerability_ended: Vec<Id>,
    /// Players penalized this tick; their invulnerability window starts now.
    pub penalized: Vec<Id>,
    /// The player who consumed the apple this tick, if any.
    pub apple_eaten: Option<Id>,
    /// The player who just won, if the hold timer expired this tick.
    pub winner: Option<Id>,
}

/// One round of the game: up to four snakes, the apples, the win tracker and
/// the handle mint for new segments.
pub struct GameState {
    /// The round's validated configuration.
    pub config: Config,
    /// The snakes, in fixed board order.
    pub snakes: Vec<Snake>,
    /// The apples on the board.
    pub apples: Vec<Apple>,
    /// The sustained-lead hold timer.
    pub win: WinTracker,
    /// Set exactly once, when the hold timer expires; ends the round.
    pub winner: Option<Id>,
    /// The next unused segment identity handle.
    pub next_handle: u64,
}

impl GameState {
    /// The round state is well formed: the configuration is valid, there is
    /// at least one snake and at most the player limit, every snake and
    /// every apple lies on the board, every snake has at least one segment,
    /// and the hold timer is live.
    pub open spec fn wf(self) -> bool {
        &&& self.config.valid()
        &&& 1 <= self.snakes@.len() <= MAX_NUMBER_OF_PLAYERS
        &&& forall|i: int|
            0 <= i < self.snakes@.len() ==> (#[trigger] self.snakes@[i])@.wf(
                self.config.half_len as int,
            )
        &&& self.apples@.len() == NUMBER_OF_APPLES
        &&& forall|a: int|
            0 <= a < self.apples@.len() ==> coordinate_in_bounds(
                (#[trigger] self.apples@[a]).coord,
                self.config.half_len as int,
            )
        &&& self.win.wf(self.config.hold_ticks)
    }

    /// Sets up a round: validates the configuration, spawns one snake per
    /// player at its slot's fixed cell, direction, colour and name, and
    /// scatters the apples at random cells.
    pub fn new(config: Config, number_of_players: usize) -> (r: Result<GameState, SetupError>)
        ensures
            match setup_defect(config, number_of_players) {
                Some(defect) => r == Err::<GameState, SetupError>(defect),
                None => {
                    &&& r is Ok
                    &&& r matches Ok(g) ==> {
                        &&& g.wf()
                        &&& g.config == config
                        &&& views_of(g.snakes@) == Seq::new(
                            number_of_players as nat,
                            |i: int| spawn_snake_view(i, config.half_len as int),
                        )
                        &&& forall|a: int|
                            0 <= a < g.apples@.len() ==> in_spawn_range(
                                (#[trigger] g.apples@[a]).coord,
                                config.half_len as int,
                            )
                        &&& g.win == (WinTracker {
                            current: None::<Id>,
                            remaining: config.hold_ticks,
                        })
                        &&& g.winner is None
                        &&& g.next_handle == number_of_players
                    }
                },
            },
    {
        if config.half_len < 1 || config.half_len > MAX_HALF_LEN {
            return Err(SetupError::InvalidHalfExtent);
        }
        if config.win_length < 1 {
            return Err(SetupError::InvalidWinLength);
        }
        if config.hold_ticks < 1 {
            return Err(SetupError::InvalidHoldDuration);
        }
        if number_of_players < 1 || number_of_players > MAX_NUMBER_OF_PLAYERS {
            return Err(SetupError::InvalidPlayerCount);
        }
        let mut snakes: Vec<Snake> = Vec::new();
        let mut slot: usize = 0;
        while slot < number_of_players
            invariant
                slot <= number_of_players <= MAX_NUMBER_OF_PLAYERS,
                1 <= config.half_len <= MAX_HALF_LEN,
                snakes@.len() == slot,
                forall|i: int|
                    0 <= i < slot ==> views_of(snakes@)[i] == spawn_snake_view(
                        i,
                        config.half_len as int,
                    ),
                forall|i: int|
                    0 <= i < slot ==> (#[trigger] snakes@[i])@.wf(config.half_len as int),
            decreases number_of_players - slot,
        {
            let snake = spawn_snake(slot, config.half_len);
            snakes.push(snake);
            slot += 1;
        }
        let mut apples: Vec<Apple> = Vec::new();
        let mut a: usize = 0;
        while a < NUMBER_OF_APPLES
            invariant
                a <= NUMBER_OF_APPLES,
                1 <= config.half_len <= MAX_HALF_LEN,
                apples@.len() == a,
                forall|t: int|
                    0 <= t < a ==> in_spawn_range(
                        (#[trigger] apples@[t]).coord,
                        config.half_len as int,
                    ),
            decreases NUMBER_OF_APPLES - a,
        {
            let cell = random_cell(config.half_len);
            apples.push(Apple { coord: cell });
            a += 1;
        }
        let g = GameState {
            config,
            snakes,
            apples,
            win: WinTracker { current: None, remaining: config.hold_ticks },
            winner: None,
            next_handle: number_of_players as u64,
        };
        proof {
            assert(views_of(g.snakes@) =~= Seq::new(
                number_of_players as nat,
                |i: int| spawn_snake_view(i, config.half_len as int),
            ));
        }
        Ok(g)
    }

    /// Arbitrates one direction intent: the first snake of the given player
    /// id sees it (an unknown id is silently ignored, non-fatal).
    pub fn propose_direction(&mut self, id: Id, direction: Direction)
        requires
            old(self).wf(),
        ensures
            final(self).wf(),
            final(self).config == old(self).config,
            final(self).apples@ == old(self).apples@,
            final(self).win == old(self).win,
            final(self).winner == old(self).winner,
            final(self).next_handle == old(self).next_handle,
            match find_snake(views_of(old(self).snakes@), id, 0) {
                None => final(self).snakes@ == old(self).snakes@,
                Some(i) => views_of(final(self).snakes@) == views_of(old(self).snakes@).update(
                    i,
                    arbitrated(views_of(old(self).snakes@)[i], direction),
                ),
            },
    {
        let ghost vs0 = views_of(self.snakes@);
        let n = self.snakes.len();
        let mut i: usize = 0;
        while i < n
            invariant
                self.snakes@ == old(self).snakes@,
                self.config == old(self).config,
                self.apples@ == old(self).apples@,
                self.win == old(self).win,
                self.winner == old(self).winner,
                self.next_handle == old(self).next_handle,
                old(self).wf(),
                vs0 == views_of(self.snakes@),
                n == vs0.len(),
                i <= n,
                find_snake(vs0, id, 0) == find_snake(vs0, id, i as int),
            decreases n - i,
        {
            if self.snakes[i].player_number == id {
                let ghost pre = self.snakes@;
                let snake = &mut self.snakes[i];
                propose_direction(snake, direction);
                proof {
                    assert forall|t: int| 0 <= t < views_of(self.snakes@).len() implies views_of(
                        self.snakes@,
                    )[t] == views_of(pre).update(
                        i as int,
                        arbitrated(views_of(pre)[i as int], direction),
                    )[t] by {
                        if t != i as int {
                            assert(self.snakes@[t] == pre[t]);
                        }
                    }
                    assert(views_of(self.snakes@) =~= views_of(pre).update(
                        i as int,
                        arbitrated(views_of(pre)[i as int], direction),
                    ));
                    assert forall|t: int|
                        0 <= t < self.snakes@.len() implies (#[trigger] self.snakes@[t])@.wf(
                        self.config.half_len as int,
                    ) by {
                        if t != i as int {
                            assert(self.snakes@[t] == pre[t]);
                        } else {
                            assert(self.snakes@[t]@ == arbitrated(
                                views_of(pre)[t],
                                direction,
                            ));
                        }
                    }
                }
                return ;
            }
            i += 1;
        }
    }

    /// Runs one tick of the simulation in the fixed phase order: reset every
    /// input lock and decrement every invulnerability countdown; move every
    /// snake one cell and wrap; detect collisions against the settled
    /// coordinates and penalize; let the first snake standing on an apple
    /// consume it and grow; then evaluate the win tracker once, unless the
    /// round already has a winner.
    #[verifier::rlimit(100)]
    pub fn tick(&mut self) -> (ev: TickEvents)
        requires
            old(self).wf(),
            old(self).next_handle < u64::MAX,
        ensures
            final(self).wf(),
            final(self).config == old(self).config,
            ({
                let cfg = old(self).config;
                let vs0 = views_of(old(self).snakes@);
                let vs1 = phase_begin(vs0);
                let vs2 = phase_move(vs1, cfg.half_len as int);
                let vs3 = after_collisions(vs2, cfg.inmortal_ticks);
                &&& ev.invulnerability_ended@ == ended_ids(vs0, vs0.len() as int)
                &&& ev.penalized@ == penalized_ids(vs2, vs2.len() as int)
                &&& match first_pair(vs3, old(self).apples@) {
                    None => {
                        &&& ev.apple_eaten is None
                        &&& views_of(final(self).snakes@) == vs3
                        &&& final(self).apples@ == old(self).apples@
                        &&& final(self).next_handle == old(self).next_handle
                    },
                    Some(pair) => {
                        &&& ev.apple_eaten == Some(vs3[pair.0].player_number)
                        &&& views_of(final(self).snakes@) == vs3.update(
                            pair.0,
                            vs3[pair.0].grown(old(self).next_handle),
                        )
                        &&& (exists|c: Coordinate|
                            in_spawn_range(c, cfg.half_len as int) && final(self).apples@ == old(
                                self,
                            ).apples@.update(pair.1, Apple { coord: c }))
                        &&& final(self).next_handle == old(self).next_handle + 1
                    },
                }
                &&& ({
                    let lead = leader_of(views_of(final(self).snakes@), cfg.win_length);
                    if old(self).winner is Some {
                        &&& final(self).win == old(self).win
                        &&& final(self).winner == old(self).winner
                        &&& ev.winner is None
                    } else {
                        &&& (final(self).win, ev.winner is Some) == old(self).win.stepped(
                            lead,
                            cfg.hold_ticks,
                        )
                        &&& ev.winner == if old(self).win.stepped(lead, cfg.hold_ticks).1 {
                            lead
                        } else {
                            None::<Id>
                        }
                        &&& final(self).winner == if old(self).win.stepped(
                            lead,
                            cfg.hold_ticks,
                        ).1 {
                            lead
                        } else {
                            old(self).winner
                        }
                    }
                })
            }),
    {
        let ghost cfg = self.config;
        let ghost vs0 = views_of(self.snakes@);
        let invulnerability_ended = begin_tick(&mut self.snakes);
        let ghost vs1 = views_of(self.snakes@);
        proof {
            assert forall|t: int| 0 <= t < self.snakes@.len() implies (
            #[trigger] self.snakes@[t])@.wf(cfg.half_len as int) by {
                assert(views_of(self.snakes@)[t] == phase_begin(vs0)[t]);
                assert(self.snakes@[t]@ == begun(vs0[t]));
                assert(vs0[t] == old(self).snakes@[t]@);
                assert(old(self).snakes@[t]@.wf(cfg.half_len as int));
            }
        }
        move_snakes(&mut self.snakes, self.config.half_len);
        let ghost vs2 = views_of(self.snakes@);
        let penalized = collide_and_penalize(&mut self.snakes, self.config.inmortal_ticks);
        let ghost vs3 = views_of(self.snakes@);
        proof {
            assert forall|t: int| 0 <= t < vs3.len() implies (#[trigger] vs3[t]).wf(
                cfg.half_len as int,
            ) by {
                assert(vs3[t] == after_collisions(vs2, cfg.inmortal_ticks)[t]);
                assert(vs2[t].wf(cfg.half_len as int));
                if takes_penalty(vs2, t) {
                    assert(vs3[t] == vs2[t].after_penalty(cfg.inmortal_ticks));
                    assert(vs3[t].segments.len() >= 1);
                    assert forall|s: int| 0 <= s < vs3[t].segments.len() implies
                        coordinate_in_bounds(#[trigger] vs3[t].segments[s].coord, cfg.half_len as int) by {
                        assert(vs3[t].segments[s] == vs2[t].segments[s]);
                        assert(coordinate_in_bounds(vs2[t].segments[s].coord, cfg.half_len as int));
                    }
                } else {
                    assert(vs3[t] == vs2[t]);
                }
            }
            assert forall|t: int| 0 <= t < self.snakes@.len() implies (
            #[trigger] self.snakes@[t])@.wf(cfg.half_len as int) by {
                assert(self.snakes@[t]@ == vs3[t]);
            }
        }
        let ghost pre_eat = self.snakes@;
        let apple_eaten = eat_apple(
            &mut self.snakes,
            &mut self.apples,
            self.config.half_len,
            &mut self.next_handle,
        );
        let ghost fp = first_pair(vs3, old(self).apples@);
        proof {
            lemma_first_pair_bounds(vs3, old(self).apples@);
            assert(vs0.len() == old(self).snakes@.len());
            assert(vs1.len() == vs0.len());
            assert(vs2.len() == vs1.len());
            assert(vs3.len() == vs2.len());
            assert(vs3 == views_of(pre_eat));
            if fp is None {
                assert(self.snakes@ == pre_eat);
                assert(views_of(self.snakes@) == vs3);
            } else {
                let pair = fp->Some_0;
                assert(views_of(self.snakes@) == vs3.update(
                    pair.0,
                    vs3[pair.0].grown(old(self).next_handle),
                ));
                assert(views_of(self.snakes@).len() == vs3.len());
            }
            assert(self.snakes@.len() == vs3.len());
            assert(self.snakes@.len() >= 1);
            assert forall|t: int| 0 <= t < self.snakes@.len() implies (
            #[trigger] self.snakes@[t])@.wf(cfg.half_len as int) by {
                match fp {
                    Option::Some(pair) => {
                        if t == pair.0 {
                            let g = vs3[t].grown(old(self).next_handle);
                            assert(views_of(self.snakes@)[t] == g);
                            assert(self.snakes@[t]@ == g);
                            assert(g.segments.len() == vs3[t].segments.len() + 1);
                            assert(vs3[t].wf(cfg.half_len as int));
                            assert forall|s: int| 0 <= s < g.segments.len() implies
                                coordinate_in_bounds(
                                #[trigger] g.segments[s].coord,
                                cfg.half_len as int,
                            ) by {
                                if s < vs3[t].segments.len() {
                                    assert(g.segments[s] == vs3[t].segments[s]);
                                } else {
                                    assert(g.segments[s].coord == vs3[t].trail);
                                }
                            }
                        } else {
                            assert(views_of(self.snakes@)[t] == vs3[t]);
                            assert(self.snakes@[t]@ == vs3[t]);
                        }
                    },
                    Option::None => {
                        assert(views_of(self.snakes@)[t] == vs3[t]);
                        assert(self.snakes@[t]@ == vs3[t]);
                    },
                }
            }
        }
        let winner_now: Option<Id>;
        if self.winner.is_none() {
            let lead = provisional_leader(&self.snakes, self.config.win_length);
            let won = self.win.step(lead, self.config.hold_ticks);
            winner_now = if won {
                lead
            } else {
                None
            };
            if won {
                self.winner = lead;
            }
        } else {
            winner_now = None;
        }
        TickEvents { invulnerability_ended, penalized, apple_eaten, winner: winner_now }
    }
}

/// Every segment of every snake of a well-formed round, its trail cell and
/// every apple lie on the board: both axes within the half extent. `new`
/// establishes well-formedness and `tick` preserves it, so this holds after
/// every tick.
pub proof fn lemma_all_coordinates_in_bounds(g: GameState)
    requires
        g.wf(),
    ensures
        forall|i: int, s: int|
            0 <= i < g.snakes@.len() && 0 <= s < g.snakes@[i]@.segments.len()
                ==> coordinate_in_bounds(
                #[trigger] g.snakes@[i]@.segments[s].coord,
                g.config.half_len as int,
            ),
        forall|a: int|
            0 <= a < g.apples@.len() ==> coordinate_in_bounds(
                (#[trigger] g.apples@[a]).coord,
                g.config.half_len as int,
            ),
{
}

/// Builds the freshly spawned snake of slot `slot`.
fn spawn_snake(slot: usize, half_len: i32) -> (s: Snake)
    requires
        slot < MAX_NUMBER_OF_PLAYERS,
        1 <= half_len <= MAX_HALF_LEN,
    ensures
        s@ == spawn_snake_view(slot as int, half_len as int),
        s@.wf(half_len as int),
{
    let (coord, direction, color, name): (Coordinate, Direction, SnakeColor, &'static str) =
        if slot == 0 {
        (Coordinate { x: -3, y: -3 }, Direction::Right, SnakeColor::LimeGreen, "Ninja")
    } else if slot == 1 {
        (Coordinate { x: 3, y: 3 }, Direction::Left, SnakeColor::Pink, "Panther")
    } else if slot == 2 {
        (Coordinate { x: -3, y: 3 }, Direction::Down, SnakeColor::Salmon, "Sushi")
    } else {
        (Coordinate { x: 3, y: -3 }, Direction::Up, SnakeColor::Turquoise, "Sonic")
    };
    let base = wrap_coordinate(coord, half_len);
    let delta = direction.delta();
    let behind = Coordinate { x: base.x - delta.0, y: base.y - delta.1 };
    let trail = wrap_coordinate(behind, half_len);
    let mut segments: Vec<Segment> = Vec::new();
    segments.push(Segment { handle: slot as u64, coord: base });
    let snake = Snake {
        player_number: Id((slot + 1) as u8),
        name,
        color,
        segments,
        direction,
        trail,
        input_blocked: false,
        inmortal_ticks: 0,
    };
    proof {
        assert(snake@.segments =~= spawn_snake_view(slot as int, half_len as int).segments);
        assert(snake@ == spawn_snake_view(slot as int, half_len as int));
    }
    snake
}

/// The tick's opening phase: resets every input lock, decrements every
/// invulnerability countdown (saturating at zero) and reports whose window
/// ended this instant.
fn begin_tick(snakes: &mut Vec<Snake>) -> (ended: Vec<Id>)
    ensures
        views_of(final(snakes)@) == phase_begin(views_of(old(snakes)@)),
        ended@ == ended_ids(views_of(old(snakes)@), old(snakes)@.len() as int),
        final(snakes)@.len() == old(snakes)@.len(),
{
    let ghost vs0 = views_of(snakes@);
    let n = snakes.len();
    let mut ended: Vec<Id> = Vec::new();
    let mut i: usize = 0;
    while i < n
        invariant
            n == snakes@.len(),
            n == vs0.len(),
            i <= n,
            forall|t: int| i <= t < n ==> views_of(snakes@)[t] == vs0[t],
            forall|t: int| 0 <= t < i ==> views_of(snakes@)[t] == #[trigger] phase_begin(vs0)[t],
            ended@ == ended_ids(vs0, i as int),
        decreases n - i,
    {
        let ghost pre = snakes@;
        if snakes[i].inmortal_ticks == 1 {
            ended.push(snakes[i].player_number);
        }
        let snake = &mut snakes[i];
        snake.input_blocked = false;
        if snake.inmortal_ticks > 0 {
            snake.inmortal_ticks = snake.inmortal_ticks - 1;
        }
        proof {
            assert forall|t: int| 0 <= t < i + 1 implies views_of(snakes@)[t] == #[trigger]
            phase_begin(vs0)[t] by {
                if t < i as int {
                    assert(snakes@[t] == pre[t]);
                    assert(views_of(pre)[t] == phase_begin(vs0)[t]);
                } else {
                    assert(views_of(snakes@)[t] == snakes@[t]@);
                    assert(snakes@[t]@ == begun(vs0[t]));
                }
            }
            assert forall|t: int| i + 1 <= t < n implies views_of(snakes@)[t] == vs0[t] by {
                assert(snakes@[t] == pre[t]);
                assert(views_of(pre)[t] == vs0[t]);
            }
        }
        i += 1;
    }
    proof {
        assert(views_of(snakes@) =~= phase_begin(vs0));
    }
    ended
}

/// The movement phase: every snake advances one cell in its direction and
/// wraps onto the board, each reading only its own coordinates as they stood
/// at tick start.
fn move_snakes(snakes: &mut Vec<Snake>, half_len: i32)
    requires
        1 <= half_len <= MAX_HALF_LEN,
        forall|t: int|
            0 <= t < old(snakes)@.len() ==> (#[trigger] old(snakes)@[t])@.wf(half_len as int),
    ensures
        views_of(final(snakes)@) == phase_move(views_of(old(snakes)@), half_len as int),
        forall|t: int|
            0 <= t < final(snakes)@.len() ==> (#[trigger] final(snakes)@[t])@.wf(half_len as int),
{
    let ghost vs0 = views_of(snakes@);
    let n = snakes.len();
    let mut i: usize = 0;
    while i < n
        invariant
            1 <= half_len <= MAX_HALF_LEN,
            n == snakes@.len(),
            n == vs0.len(),
            i <= n,
            forall|t: int| i <= t < n ==> views_of(snakes@)[t] == vs0[t],
            forall|t: int|
                0 <= t < i ==> views_of(snakes@)[t] == #[trigger] phase_move(
                    vs0,
                    half_len as int,
                )[t],
            forall|t: int| 0 <= t < n ==> (#[trigger] snakes@[t])@.wf(half_len as int),
        decreases n - i,
    {
        let ghost pre = snakes@;
        let snake = &mut snakes[i];
        snake.move_forward(half_len);
        proof {
            assert forall|t: int| 0 <= t < i + 1 implies views_of(snakes@)[t] == #[trigger]
            phase_move(vs0, half_len as int)[t] by {
                if t < i as int {
                    assert(snakes@[t] == pre[t]);
                    assert(views_of(pre)[t] == phase_move(vs0, half_len as int)[t]);
                } else {
                    assert(views_of(snakes@)[t] == snakes@[t]@);
                    assert(snakes@[t]@ == vs0[t].moved(half_len as int));
                }
            }
            assert forall|t: int| i + 1 <= t < n implies views_of(snakes@)[t] == vs0[t] by {
                assert(snakes@[t] == pre[t]);
                assert(views_of(pre)[t] == vs0[t]);
            }
            assert forall|t: int| 0 <= t < n implies (#[trigger] snakes@[t])@.wf(
                half_len as int,
            ) by {
                if t != i as int {
                    assert(snakes@[t] == pre[t]);
                }
            }
        }
        i += 1;
    }
    proof {
        assert(views_of(snakes@) =~= phase_move(vs0, half_len as int));
    }
}

} // verus!
