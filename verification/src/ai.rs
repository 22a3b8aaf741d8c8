//! The apple-seeking heuristic for computer-controlled snakes: head toward
//! the first apple on each axis, flip the direction where the wrapped path
//! is shorter, then pick the horizontal intent, the vertical intent or no
//! intent at all by a weighted random draw, so that the computer snakes do
//! not all move alike.

use vstd::prelude::*;

use crate::arbitration::{arbitrated, propose_direction};
use crate::collision::views_of;
use crate::coordinate::{coordinate_in_bounds, Coordinate, MAX_HALF_LEN};
use crate::direction::Direction;
use crate::rng::weighted_pick3;
use crate::snake::{Id, SnakeView};
use crate::game::GameState;

verus! {

/// The horizontal intent toward the apple: left or right toward it on a flat
/// board, flipped where the toroidal path the other way is shorter, none
/// when the axis already matches.
pub open spec fn axis_intent_x(head: Coordinate, apple: Coordinate, half_len: int) -> Option<
    Direction,
> {
    let raw = if head.x > apple.x {
        Some(Direction::Left)
    } else if head.x < apple.x {
        Some(Direction::Right)
    } else {
        None
    };
    let gap = if head.x - apple.x >= 0 {
        head.x - apple.x
    } else {
        apple.x - head.x
    };
    if gap > half_len {
        match raw {
            Some(d) => Some(d.spec_opposite()),
            None => None,
        }
    } else {
        raw
    }
}

/// The vertical intent toward the apple, wrap-aware in the same way.
pub open spec fn axis_intent_y(head: Coordinate, apple: Coordinate, half_len: int) -> Option<
    Direction,
> {
    let raw = if head.y > apple.y {
        Some(Direction::Down)
    } else if head.y < apple.y {
        Some(Direction::Up)
    } else {
        None
    };
    let gap = if head.y - apple.y >= 0 {
        head.y - apple.y
    } else {
        apple.y - head.y
    };
    if gap > half_len {
        match raw {
            Some(d) => Some(d.spec_opposite()),
            None => None,
        }
    } else {
        raw
    }
}

/// What the heuristic proposes under draw `pick`: the horizontal intent, the
/// vertical intent, or nothing.
pub open spec fn ai_choice(head: Coordinate, apple: Coordinate, half_len: int, pick: usize) -> Option<Direction> {
    if pick == 0 {
        axis_intent_x(head, apple, half_len)
    } else if pick == 1 {
        axis_intent_y(head, apple, half_len)
    } else {
        None
    }
}

/// A snake after one heuristic proposal under draw `pick`: the chosen intent
/// goes through the ordinary input arbitration; no intent leaves the snake
/// untouched.
pub open spec fn ai_step(s: SnakeView, apple: Coordinate, half_len: int, pick: usize) -> SnakeView {
    match ai_choice(s.head(), apple, half_len, pick) {
        Some(d) => arbitrated(s, d),
        None => s,
    }
}

/// The heuristic's whole effect on one snake: a computer player's snake is
/// the result of one weighted draw followed by arbitration; any other snake
/// is untouched.
pub open spec fn ai_outcome(
    pre: SnakeView,
    post: SnakeView,
    players: Seq<Id>,
    apple: Coordinate,
    half_len: int,
) -> bool {
    if players.contains(pre.player_number) {
        exists|pick: usize| pick < 3 && post == #[trigger] ai_step(pre, apple, half_len, pick)
    } else {
        post == pre
    }
}

/// Computes the wrap-aware horizontal intent toward the apple.
pub fn candidate_x(head: Coordinate, apple: Coordinate, half_len: i32) -> (r: Option<Direction>)
    requires
        1 <= half_len <= MAX_HALF_LEN,
        coordinate_in_bounds(head, half_len as int),
        coordinate_in_bounds(apple, half_len as int),
    ensures
        r == axis_intent_x(head, apple, half_len as int),
{
    let raw = if head.x > apple.x {
        Some(Direction::Left)
    } else if head.x < apple.x {
        Some(Direction::Right)
    } else {
        None
    };
    let diff = head.x - apple.x;
    let gap = if diff >= 0 {
        diff
    } else {
        -diff
    };
    if gap > half_len {
        match raw {
            Some(d) => Some(d.opposite()),
            None => None,
        }
    } else {
        raw
    }
}

/// Computes the wrap-aware vertical intent toward the apple.
pub fn candidate_y(head: Coordinate, apple: Coordinate, half_len: i32) -> (r: Option<Direction>)
    requires
        1 <= half_len <= MAX_HALF_LEN,
        coordinate_in_bounds(head, half_len as int),
        coordinate_in_bounds(apple, half_len as int),
    ensures
        r == axis_intent_y(head, apple, half_len as int),
{
    let raw = if head.y > apple.y {
        Some(Direction::Down)
    } else if head.y < apple.y {
        Some(Direction::Up)
    } else {
        None
    };
    let diff = head.y - apple.y;
    let gap = if diff >= 0 {
        diff
    } else {
        -diff
    };
    if gap > half_len {
        match raw {
            Some(d) => Some(d.opposite()),
            None => None,
        }
    } else {
        raw
    }
}

/// Whether the id stands in the list of computer-controlled players.
fn contains_id(ids: &Vec<Id>, id: Id) -> (r: bool)
    ensures
        r == ids@.contains(id),
{
    let n = ids.len();
    let mut t: usize = 0;
    while t < n
        invariant
            t <= n,
            n == ids@.len(),
            forall|s: int| 0 <= s < t ==> ids@[s] != id,
        decreases n - t,
    {
        if ids[t] == id {
            return true;
        }
        t += 1;
    }
    false
}

impl GameState {
    /// Runs the heuristic for every snake of a computer-controlled player:
    /// each aims at the first apple and submits at most one weighted-random
    /// intent through the ordinary arbitration. Human players' snakes are
    /// untouched.
    pub fn ai_propose_all(&mut self, players: &Vec<Id>)
        requires
            old(self).wf(),
        ensures
            final(self).wf(),
            final(self).config == old(self).config,
            final(self).apples@ == old(self).apples@,
            final(self).win == old(self).win,
            final(self).winner == old(self).winner,
            final(self).next_handle == old(self).next_handle,
            final(self).snakes@.len() == old(self).snakes@.len(),
            forall|t: int|
                0 <= t < old(self).snakes@.len() ==> #[trigger] ai_outcome(
                    views_of(old(self).snakes@)[t],
                    views_of(final(self).snakes@)[t],
                    players@,
                    old(self).apples@[0].coord,
                    old(self).config.half_len as int,
                ),
    {
        let ghost vs0 = views_of(self.snakes@);
        let ghost apple0 = self.apples@[0].coord;
        let ghost h = self.config.half_len as int;
        let apple = self.apples[0].coord;
        let half_len = self.config.half_len;
        let n = self.snakes.len();
        let mut i: usize = 0;
        while i < n
            invariant
                self.config == old(self).config,
                self.apples@ == old(self).apples@,
                self.win == old(self).win,
                self.winner == old(self).winner,
                self.next_handle == old(self).next_handle,
                old(self).wf(),
                n == self.snakes@.len(),
                n == vs0.len(),
                vs0 == views_of(old(self).snakes@),
                i <= n,
                half_len == self.config.half_len,
                h == half_len as int,
                apple == apple0,
                coordinate_in_bounds(apple, h),
                forall|t: int|
                    0 <= t < self.snakes@.len() ==> (#[trigger] self.snakes@[t])@.wf(h),
                forall|t: int| i <= t < n ==> views_of(self.snakes@)[t] == vs0[t],
                forall|t: int|
                    0 <= t < i ==> #[trigger] ai_outcome(
                        vs0[t],
                        views_of(self.snakes@)[t],
                        players@,
                        apple0,
                        h,
                    ),
            decreases n - i,
        {
            let ghost pre = self.snakes@;
            let id = self.snakes[i].player_number;
            if contains_id(players, id) {
                let head = self.snakes[i].head();
                let dx = candidate_x(head, apple, half_len);
                let dy = candidate_y(head, apple, half_len);
                let pick = weighted_pick3(1, 1, 20);
                let choice = if pick == 0 {
                    dx
                } else if pick == 1 {
                    dy
                } else {
                    None
                };
                if let Some(d) = choice {
                    let snake = &mut self.snakes[i];
                    propose_direction(snake, d);
                }
                proof {
                    assert(views_of(self.snakes@)[i as int] == ai_step(vs0[i as int], apple0, h, pick));
                    assert(ai_outcome(vs0[i as int], views_of(self.snakes@)[i as int], players@, apple0, h));
                    assert forall|t: int| 0 <= t < n && t != i as int implies views_of(
                        self.snakes@,
                    )[t] == views_of(pre)[t] by {
                        assert(self.snakes@[t] == pre[t]);
                    }
                }
            }
            proof {
                assert forall|t: int|
                    0 <= t < self.snakes@.len() implies (#[trigger] self.snakes@[t])@.wf(h) by {
                    if t != i as int {
                        assert(self.snakes@[t] == pre[t]);
                    } else {
                        assert(self.snakes@[t]@ == views_of(self.snakes@)[t]);
                    }
                }
                assert forall|t: int| 0 <= t < i + 1 implies #[trigger] ai_outcome(
                    vs0[t],
                    views_of(self.snakes@)[t],
                    players@,
                    apple0,
                    h,
                ) by {
                    if t < i as int {
                        assert(views_of(self.snakes@)[t] == views_of(pre)[t]) by {
                            assert(self.snakes@[t] == pre[t]);
                        }
                        assert(ai_outcome(vs0[t], views_of(pre)[t], players@, apple0, h));
                    } else {
                        if !players@.contains(vs0[t].player_number) {
                            assert(views_of(self.snakes@)[t] == vs0[t]) by {
                                assert(self.snakes@[t] == pre[t]);
                                assert(views_of(pre)[t] == vs0[t]);
                            }
                        }
                    }
                }
                assert forall|t: int| i + 1 <= t < n implies views_of(self.snakes@)[t] == vs0[t]
                by {
                    assert(self.snakes@[t] == pre[t]);
                    assert(views_of(pre)[t] == vs0[t]);
                }
            }
            i += 1;
        }
    }
}

} // verus!
