//! Snake state: an ordered chain of segments addressed by stable handles,
//! the current direction, the trail cell vacated by the tail on the last
//! move, the per-tick input lock and the invulnerability countdown.

use vstd::prelude::*;

use crate::coordinate::{
    coordinate_in_bounds, wrap_coordinate, wrap_spec, Coordinate, MAX_HALF_LEN,
};
use crate::direction::Direction;

verus! {

/// Player identifier; valid ids are 1 through `MAX_NUMBER_OF_PLAYERS`.
#[derive(Clone, Copy, Debug, Hash, PartialEq, Eq, Structural)]
pub struct Id(pub u8);

/// Colour assigned to a player slot, one per snake.
#[derive(Clone, Copy, Debug, Hash, PartialEq, Eq, Structural)]
pub enum SnakeColor {
    LimeGreen,
    Pink,
    Salmon,
    Turquoise,
}

/// One body segment: a stable identity handle plus its current cell.
/// Movement reuses handles by rotation; only growth mints a new one.
#[derive(Clone, Copy, Debug, PartialEq, Eq, Structural)]
pub struct Segment {
    pub handle: u64,
    pub coord: Coordinate,
}

/// One snake. Segments are ordered head first; the chain never goes empty.
pub struct Snake {
    pub player_number: Id,
    pub name: &'static str,
    pub color: SnakeColor,
    pub segments: Vec<Segment>,
    pub direction: Direction,
    pub trail: Coordinate,
    pub input_blocked: bool,
    pub inmortal_ticks: u8,
}

/// Mathematical model of a snake, with the segment chain as a sequence.
pub struct SnakeView {
    pub player_number: Id,
    pub name: Seq<char>,
    pub color: SnakeColor,
    pub segments: Seq<Segment>,
    pub direction: Direction,
    pub trail: Coordinate,
    pub input_blocked: bool,
    pub inmortal_ticks: u8,
}

impl View for Snake {
    type V = SnakeView;

    open spec fn view(&self) -> SnakeView {
        SnakeView {
            player_number: self.player_number,
            name: self.name@,
            color: self.color,
            segments: self.segments@,
            direction: self.direction,
            trail: self.trail,
            input_blocked: self.input_blocked,
            inmortal_ticks: self.inmortal_ticks,
        }
    }
}

impl SnakeView {
    /// The snake's head cell.
    pub open spec fn head(self) -> Coordinate {
        self.segments[0].coord
    }

    /// How many segments the snake has.
    pub open spec fn len(self) -> nat {
        self.segments.len()
    }

    /// Well-formed on a board of half extent `half_len`: at least one
    /// segment, and every segment and the trail lie on the board.
    pub open spec fn wf(self, half_len: int) -> bool {
        &&& self.segments.len() >= 1
        &&& forall|i: int|
            0 <= i < self.segments.len() ==> coordinate_in_bounds(
                #[trigger] self.segments[i].coord,
                half_len,
            )
        &&& coordinate_in_bounds(self.trail, half_len)
    }

    /// The snake after one movement step on a board of half extent
    /// `half_len`: the tail segment is rewritten with the wrapped cell one
    /// step ahead of the head and rotated to the front, and the vacated tail
    /// cell becomes the trail. Handles are reused; nothing is allocated.
    pub open spec fn moved(self, half_len: int) -> SnakeView {
        let head = self.head();
        let tail = self.segments.last();
        let step = Coordinate {
            x: (head.x + self.direction.spec_delta().0) as i32,
            y: (head.y + self.direction.spec_delta().1) as i32,
        };
        let new_head = Segment { handle: tail.handle, coord: wrap_spec(step, half_len) };
        SnakeView { segments: seq![new_head] + self.segments.drop_last(), trail: tail.coord, ..self }
    }

    /// The snake after growing one segment: the new segment takes the
    /// freshly minted `handle` and spawns on the trail cell.
    pub open spec fn grown(self, handle: u64) -> SnakeView {
        SnakeView {
            segments: self.segments.push(Segment { handle, coord: self.trail }),
            ..self
        }
    }
}

impl Snake {
    /// Moves the snake one cell in its current direction, wrapping onto the
    /// board: the trail records the vacated tail cell, and the tail segment
    /// is rewritten and rotated to the front as the new head.
    pub fn move_forward(&mut self, half_len: i32)
        requires
            old(self)@.wf(half_len as int),
            1 <= half_len <= MAX_HALF_LEN,
        ensures
            final(self)@ == old(self)@.moved(half_len as int),
            final(self)@.wf(half_len as int),
    {
        let n = self.segments.len();
        let head = self.segments[0];
        let delta = self.direction.delta();
        let mut tail = self.segments.remove(n - 1);
        self.trail = tail.coord;
        let step = Coordinate { x: head.coord.x + delta.0, y: head.coord.y + delta.1 };
        tail.coord = wrap_coordinate(step, half_len);
        self.segments.insert(0, tail);
        proof {
            assert(self@.segments =~= seq![
                Segment { handle: old(self)@.segments.last().handle, coord: tail.coord },
            ] + old(self)@.segments.drop_last());
            assert(self@ == old(self)@.moved(half_len as int));
        }
    }

    /// Appends one new segment on the trail cell under the given fresh
    /// handle.
    pub fn grow(&mut self, handle: u64)
        ensures
            final(self)@ == old(self)@.grown(handle),
    {
        let segment = Segment { handle, coord: self.trail };
        self.segments.push(segment);
    }

    /// How many segments the snake has.
    pub fn len(&self) -> (r: usize)
        ensures
            r == self@.len(),
    {
        self.segments.len()
    }

    /// The snake's head cell.
    pub fn head(&self) -> (r: Coordinate)
        requires
            self@.len() >= 1,
        ensures
            r == self@.head(),
    {
        self.segments[0].coord
    }
}

} // verus!
