//! Trusted boundary to the random number generator: every random draw the
//! simulation makes goes through one of these wrappers, and the logic around
//! them is verified for every value the contracts admit.

use vstd::prelude::*;

use crate::coordinate::Coordinate;

verus! {

/// Relies on rand::Rng::gen_range over rand::thread_rng: a draw from the
/// half-open range `low..high` lies in that range; the range is non-empty, so
/// the call does not panic.
#[verifier::external_body]
pub(crate) fn random_axis(low: i32, high: i32) -> (r: i32)
    requires
        low < high,
    ensures
        low <= r < high,
{
    rand::Rng::gen_range(&mut rand::thread_rng(), low..high)
}

/// Draws a uniformly random board cell, each axis from `-half_len..half_len`
/// as the apple spawner uses it.
pub(crate) fn random_cell(half_len: i32) -> (r: Coordinate)
    requires
        1 <= half_len,
    ensures
        -half_len <= r.x < half_len,
        -half_len <= r.y < half_len,
{
    let x = random_axis(-half_len, half_len);
    let y = random_axis(-half_len, half_len);
    Coordinate { x, y }
}

/// Relies on rand::distributions::WeightedIndex: `new` accepts three
/// non-negative weights whose total is positive, and `sample` returns the
/// index of one weight, never one that is zero.
#[verifier::external_body]
pub(crate) fn weighted_pick3(w0: u32, w1: u32, w2: u32) -> (r: usize)
    requires
        0 < w0 as int + w1 as int + w2 as int <= u32::MAX as int,
    ensures
        r < 3,
        r == 0 ==> w0 > 0,
        r == 1 ==> w1 > 0,
        r == 2 ==> w2 > 0,
{
    let index = rand::distributions::WeightedIndex::new([w0, w1, w2]).unwrap();
    rand::distributions::Distribution::sample(&index, &mut rand::thread_rng())
}

} // verus!
