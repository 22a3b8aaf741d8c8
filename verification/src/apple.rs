//! Apples: independent positions on the board. At most one apple is consumed
//! per tick, by the first snake in board order whose head stands on one; the
//! eaten apple respawns at a random cell (which may coincide with an occupied
//! cell — a known, accepted limitation) and the eater grows one segment on
//! its trail cell.

use vstd::prelude::*;

use crate::collision::views_of;
use crate::coordinate::{in_spawn_range, Coordinate, MAX_HALF_LEN};
use crate::rng::random_cell;
use crate::snake::{Id, Snake, SnakeView};

verus! {

/// One apple: its current cell.
#[derive(Clone, Copy, Debug, PartialEq, Eq, Structural)]
pub struct Apple {
    pub coord: Coordinate,
}

/// The first apple, from index `from` on, whose cell the snake's head stands
/// on.
pub open spec fn first_apple_for(s: SnakeView, apples: Seq<Apple>, from: int) -> Option<int>
    decreases apples.len() - from,
{
    if from < 0 || from >= apples.len() {
        None
    } else if apples[from].coord == s.head() {
        Some(from)
    } else {
        first_apple_for(s, apples, from + 1)
    }
}

/// The first (snake, apple) pair, in snake-major order from snake `from` on,
/// whose head and apple share a cell.
pub open spec fn first_pair_from(vs: Seq<SnakeView>, apples: Seq<Apple>, from: int) -> Option<
    (int, int),
>
    decreases vs.len() - from,
{
    if from < 0 || from >= vs.len() {
        None
    } else {
        match first_apple_for(vs[from], apples, 0) {
            Some(a) => Some((from, a)),
            None => first_pair_from(vs, apples, from + 1),
        }
    }
}

/// The first (snake, apple) pair whose head and apple share a cell, if any.
pub open spec fn first_pair(vs: Seq<SnakeView>, apples: Seq<Apple>) -> Option<(int, int)> {
    first_pair_from(vs, apples, 0)
}

proof fn lemma_first_apple_for_bounds(s: SnakeView, apples: Seq<Apple>, from: int)
    ensures
        first_apple_for(s, apples, from) matches Some(a) ==> from <= a < apples.len()
            && apples[a].coord == s.head(),
    decreases apples.len() - from,
{
    if from >= 0 && from < apples.len() && apples[from].coord != s.head() {
        lemma_first_apple_for_bounds(s, apples, from + 1);
    }
}

/// A found (snake, apple) pair indexes a real snake and a real apple, and
/// that snake's head stands on that apple.
pub proof fn lemma_first_pair_bounds(vs: Seq<SnakeView>, apples: Seq<Apple>)
    ensures
        first_pair(vs, apples) matches Some(pair) ==> 0 <= pair.0 < vs.len() && 0 <= pair.1
            < apples.len() && apples[pair.1].coord == vs[pair.0].head(),
{
    lemma_first_pair_from_bounds(vs, apples, 0);
}

proof fn lemma_first_pair_from_bounds(vs: Seq<SnakeView>, apples: Seq<Apple>, from: int)
    ensures
        first_pair_from(vs, apples, from) matches Some(pair) ==> from <= pair.0 < vs.len() && 0
            <= pair.1 < apples.len() && apples[pair.1].coord == vs[pair.0].head(),
    decreases vs.len() - from,
{
    if from >= 0 && from < vs.len() {
        lemma_first_apple_for_bounds(vs[from], apples, 0);
        if first_apple_for(vs[from], apples, 0) is None {
            lemma_first_pair_from_bounds(vs, apples, from + 1);
        }
    }
}

/// Growth changes exactly one snake: the eater gains exactly one segment and
/// every other snake keeps its length.
pub proof fn lemma_growth_lengths(vs: Seq<SnakeView>, i: int, handle: u64)
    requires
        0 <= i < vs.len(),
    ensures
        vs.update(i, vs[i].grown(handle))[i].len() == vs[i].len() + 1,
        forall|j: int|
            0 <= j < vs.len() && j != i ==> vs.update(i, vs[i].grown(handle))[j].len()
                == vs[j].len(),
{
}

/// Consumes at most one apple this tick: the first snake in board order whose
/// head stands on an apple eats it. The eaten apple respawns at a random
/// cell, the eater grows one segment on its trail cell under a freshly
/// minted handle, and everything else is untouched. With no consumption,
/// nothing changes.
pub fn eat_apple(
    snakes: &mut Vec<Snake>,
    apples: &mut Vec<Apple>,
    half_len: i32,
    next_handle: &mut u64,
) -> (eater: Option<Id>)
    requires
        1 <= half_len <= MAX_HALF_LEN,
        *old(next_handle) < u64::MAX,
        forall|j: int| 0 <= j < old(snakes)@.len() ==> (#[trigger] old(snakes)@[j])@.len() >= 1,
    ensures
        match first_pair(views_of(old(snakes)@), old(apples)@) {
            None => {
                &&& eater is None
                &&& final(snakes)@ == old(snakes)@
                &&& final(apples)@ == old(apples)@
                &&& *final(next_handle) == *old(next_handle)
            },
            Some(pair) => {
                &&& eater == Some(views_of(old(snakes)@)[pair.0].player_number)
                &&& views_of(final(snakes)@) == views_of(old(snakes)@).update(
                    pair.0,
                    views_of(old(snakes)@)[pair.0].grown(*old(next_handle)),
                )
                &&& exists|c: Coordinate|
                    in_spawn_range(c, half_len as int) && final(apples)@ == old(apples)@.update(
                        pair.1,
                        Apple { coord: c },
                    )
                &&& *final(next_handle) == *old(next_handle) + 1
            },
        },
{
    let ghost vs0 = views_of(snakes@);
    let ghost ap0 = apples@;
    let n = snakes.len();
    let m = apples.len();
    let mut i: usize = 0;
    while i < n
        invariant
            snakes@ == old(snakes)@,
            apples@ == old(apples)@,
            *next_handle == *old(next_handle),
            vs0 == views_of(snakes@),
            ap0 == apples@,
            n == vs0.len(),
            m == ap0.len(),
            i <= n,
            1 <= half_len <= MAX_HALF_LEN,
            *old(next_handle) < u64::MAX,
            forall|j: int| 0 <= j < snakes@.len() ==> (#[trigger] snakes@[j])@.len() >= 1,
            first_pair(vs0, ap0) == first_pair_from(vs0, ap0, i as int),
        decreases n - i,
    {
        let head = snakes[i].head();
        let mut a: usize = 0;
        while a < m
            invariant
                snakes@ == old(snakes)@,
                apples@ == old(apples)@,
                *next_handle == *old(next_handle),
                vs0 == views_of(snakes@),
                ap0 == apples@,
                n == vs0.len(),
                m == ap0.len(),
                i < n,
                a <= m,
                1 <= half_len <= MAX_HALF_LEN,
                *old(next_handle) < u64::MAX,
                forall|j: int| 0 <= j < snakes@.len() ==> (#[trigger] snakes@[j])@.len() >= 1,
                first_pair(vs0, ap0) == first_pair_from(vs0, ap0, i as int),
                head == vs0[i as int].head(),
                first_apple_for(vs0[i as int], ap0, 0) == first_apple_for(
                    vs0[i as int],
                    ap0,
                    a as int,
                ),
            decreases m - a,
        {
            if apples[a].coord == head {
                return consume(snakes, apples, i, a, half_len, next_handle);
            }
            a += 1;
        }
        assert(first_apple_for(vs0[i as int], ap0, 0) is None);
        i += 1;
    }
    None
}

/// Applies one consumption: snake `i` eats apple `a`, which respawns at a
/// random cell; the eater grows one segment on its trail under a fresh
/// handle.
fn consume(
    snakes: &mut Vec<Snake>,
    apples: &mut Vec<Apple>,
    i: usize,
    a: usize,
    half_len: i32,
    next_handle: &mut u64,
) -> (eater: Option<Id>)
    requires
        1 <= half_len <= MAX_HALF_LEN,
        *old(next_handle) < u64::MAX,
        i < old(snakes)@.len(),
        a < old(apples)@.len(),
    ensures
        eater == Some(views_of(old(snakes)@)[i as int].player_number),
        views_of(final(snakes)@) == views_of(old(snakes)@).update(
            i as int,
            views_of(old(snakes)@)[i as int].grown(*old(next_handle)),
        ),
        exists|c: Coordinate|
            in_spawn_range(c, half_len as int) && final(apples)@ == old(apples)@.update(
                a as int,
                Apple { coord: c },
            ),
        *final(next_handle) == *old(next_handle) + 1,
{
    let ghost pre = snakes@;
    let handle = *next_handle;
    *next_handle = handle + 1;
    let cell = random_cell(half_len);
    apples[a] = Apple { coord: cell };
    let id = snakes[i].player_number;
    let snake = &mut snakes[i];
    snake.grow(handle);
    proof {
        assert forall|t: int| 0 <= t < views_of(snakes@).len() implies views_of(snakes@)[t]
            == views_of(pre).update(i as int, views_of(pre)[i as int].grown(handle))[t] by {
            if t != i as int {
                assert(snakes@[t] == pre[t]);
            }
        }
        assert(views_of(snakes@) =~= views_of(pre).update(
            i as int,
            views_of(pre)[i as int].grown(handle),
        ));
        assert(in_spawn_range(cell, half_len as int));
        assert(apples@ == old(apples)@.update(a as int, Apple { coord: cell }));
    }
    Some(id)
}

} // verus!
