//! The four movement directions, their opposites and their unit deltas.

use vstd::prelude::*;

verus! {

/// One of the four movement directions.
#[derive(Clone, Copy, Debug, Hash, PartialEq, Eq, Structural)]
pub enum Direction {
    Down,
    Left,
    Right,
    Up,
}

impl Direction {
    /// The direction pointing the opposite way.
    pub open spec fn spec_opposite(self) -> Direction {
        match self {
            Direction::Down => Direction::Up,
            Direction::Left => Direction::Right,
            Direction::Right => Direction::Left,
            Direction::Up => Direction::Down,
        }
    }

    /// The unit step this direction takes on the grid, as `(dx, dy)`.
    pub open spec fn spec_delta(self) -> (int, int) {
        match self {
            Direction::Down => (0, -1),
            Direction::Left => (-1, 0),
            Direction::Right => (1, 0),
            Direction::Up => (0, 1),
        }
    }

    /// Returns the direction pointing the opposite way.
    pub fn opposite(self) -> (r: Direction)
        ensures
            r == self.spec_opposite(),
    {
        match self {
            Direction::Down => Direction::Up,
            Direction::Left => Direction::Right,
            Direction::Right => Direction::Left,
            Direction::Up => Direction::Down,
        }
    }

    /// Returns the unit step this direction takes on the grid.
    pub fn delta(self) -> (r: (i32, i32))
        ensures
            r.0 as int == self.spec_delta().0,
            r.1 as int == self.spec_delta().1,
    {
        match self {
            Direction::Down => (0, -1),
            Direction::Left => (-1, 0),
            Direction::Right => (1, 0),
            Direction::Up => (0, 1),
        }
    }
}

/// No direction is its own opposite, and the opposite of the opposite is the
/// direction itself.
pub proof fn lemma_opposite_involutive(d: Direction)
    ensures
        d.spec_opposite() != d,
        d.spec_opposite().spec_opposite() == d,
{
}

} // verus!
