//! Input arbitration: a stream of direction intents is filtered down to at
//! most one accepted turn per snake per tick, with hard reversals and no-op
//! repeats silently ignored.

use vstd::prelude::*;

use crate::direction::{lemma_opposite_involutive, Direction};
use crate::snake::{Snake, SnakeView};

verus! {

/// The snake after one direction intent has been arbitrated: the intent is
/// ignored if the snake already accepted a turn this tick, if it proposes the
/// current direction, or if it proposes the exact opposite; otherwise the
/// direction is taken and the input lock set.
pub open spec fn arbitrated(s: SnakeView, proposed: Direction) -> SnakeView {
    if s.input_blocked {
        s
    } else if proposed == s.direction {
        s
    } else if proposed == s.direction.spec_opposite() {
        s
    } else {
        SnakeView { direction: proposed, input_blocked: true, ..s }
    }
}

/// Arbitrates one direction intent for this snake. Rejected intents leave
/// the snake untouched; an accepted one sets the direction and the input
/// lock.
pub fn propose_direction(snake: &mut Snake, proposed: Direction)
    ensures
        final(snake)@ == arbitrated(old(snake)@, proposed),
{
    if snake.input_blocked {
        return ;
    }
    if proposed == snake.direction {
        return ;
    }
    if proposed == snake.direction.opposite() {
        return ;
    }
    snake.direction = proposed;
    snake.input_blocked = true;
}

/// A snake's direction is never set to the exact opposite of its current
/// direction: whatever is proposed, the arbitrated direction differs from
/// that opposite.
pub proof fn lemma_no_reversal(s: SnakeView, proposed: Direction)
    ensures
        arbitrated(s, proposed).direction != s.direction.spec_opposite(),
{
    lemma_opposite_involutive(s.direction);
}

/// At most one direction change per snake per tick, regardless of how many
/// intents arrive: once an intent has changed the snake, every further
/// intent in the same tick leaves it unchanged.
pub proof fn lemma_one_turn_per_tick(s: SnakeView, first: Direction, second: Direction)
    ensures
        arbitrated(s, first) != s ==> arbitrated(arbitrated(s, first), second) == arbitrated(
            s,
            first,
        ),
{
}

/// Submitting the already-current direction never sets the input lock and
/// never changes the snake.
pub proof fn lemma_current_direction_is_noop(s: SnakeView)
    ensures
        arbitrated(s, s.direction) == s,
{
}

} // verus!
