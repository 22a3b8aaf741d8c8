//! Integer cell positions on the toroidal board and the wrap function that
//! keeps every coordinate inside [-half_len, half_len] on both axes.

use vstd::prelude::*;

verus! {

/// Upper limit on a board's half extent, so that one step past either edge
/// and axis differences stay well inside `i32`.
pub const MAX_HALF_LEN: i32 = 1000000;

/// Position of one cell: a pair of signed integers, compared by value.
#[derive(Clone, Copy, Debug, Hash, PartialEq, Eq, Structural)]
pub struct Coordinate {
    pub x: i32,
    pub y: i32,
}

/// One axis value lies on a board of half extent `half_len`.
pub open spec fn axis_in_bounds(v: int, half_len: int) -> bool {
    -half_len <= v && v <= half_len
}

/// Both axes of `c` lie on a board of half extent `half_len`.
pub open spec fn coordinate_in_bounds(c: Coordinate, half_len: int) -> bool {
    axis_in_bounds(c.x as int, half_len) && axis_in_bounds(c.y as int, half_len)
}

/// The half-open range apples respawn in: each axis drawn from
/// `-half_len..half_len`.
pub open spec fn in_spawn_range(c: Coordinate, half_len: int) -> bool {
    &&& -half_len <= c.x < half_len
    &&& -half_len <= c.y < half_len
}

/// Toroidal wrap of one axis: a value past one edge reappears at the opposite
/// edge; a value already on the board is unchanged.
pub open spec fn wrap_axis(v: int, half_len: int) -> int {
    if v > half_len {
        -half_len
    } else if v < -half_len {
        half_len
    } else {
        v
    }
}

/// Toroidal wrap of a whole coordinate, axis by axis.
pub open spec fn wrap_spec(c: Coordinate, half_len: int) -> Coordinate {
    Coordinate { x: wrap_axis(c.x as int, half_len) as i32, y: wrap_axis(c.y as int, half_len) as i32 }
}

/// The wrapped coordinate always lies on the board.
pub proof fn lemma_wrap_in_bounds(c: Coordinate, half_len: int)
    requires
        1 <= half_len <= MAX_HALF_LEN,
    ensures
        coordinate_in_bounds(wrap_spec(c, half_len), half_len),
{
}

impl Coordinate {
    /// Builds the coordinate with the given axis values.
    pub fn new(x: i32, y: i32) -> (r: Coordinate)
        ensures
            r == (Coordinate { x, y }),
    {
        Coordinate { x, y }
    }
}

impl From<(i32, i32)> for Coordinate {
    /// Builds the coordinate from an `(x, y)` pair.
    fn from(value: (i32, i32)) -> (r: Coordinate) {
        Coordinate { x: value.0, y: value.1 }
    }
}

impl vstd::std_specs::convert::FromSpecImpl<(i32, i32)> for Coordinate {
    open spec fn obeys_from_spec() -> bool {
        true
    }

    open spec fn from_spec(value: (i32, i32)) -> Coordinate {
        Coordinate { x: value.0, y: value.1 }
    }
}

/// Wraps `c` onto the board of half extent `half_len`.
pub fn wrap_coordinate(c: Coordinate, half_len: i32) -> (r: Coordinate)
    requires
        1 <= half_len <= MAX_HALF_LEN,
    ensures
        r == wrap_spec(c, half_len as int),
        coordinate_in_bounds(r, half_len as int),
{
    let x = if c.x > half_len {
        -half_len
    } else if c.x < -half_len {
        half_len
    } else {
        c.x
    };
    let y = if c.y > half_len {
        -half_len
    } else if c.y < -half_len {
        half_len
    } else {
        c.y
    };
    Coordinate { x, y }
}

} // verus!
