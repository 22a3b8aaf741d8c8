//! Collision detection and penalty: a vulnerable snake whose head lands on
//! any body cell or on another snake's head loses a fraction of its tail and
//! becomes temporarily invulnerable. Detection reads only the settled
//! post-movement, post-wrap coordinates, so simultaneous head-on-head hits
//! penalize both snakes, symmetrically and order-independently.

use vstd::prelude::*;

use crate::snake::{Id, Snake, SnakeView};

verus! {

/// All snakes of the round, as mathematical models.
pub open spec fn views_of(snakes: Seq<Snake>) -> Seq<SnakeView> {
    Seq::new(snakes.len(), |i: int| snakes[i]@)
}

/// Snake `i`'s head stands on a colliding cell: some snake's body segment
/// (any segment but that snake's own head) or another snake's head.
pub open spec fn head_hits(vs: Seq<SnakeView>, i: int) -> bool {
    let h = vs[i].head();
    (exists|j: int, k: int|
        0 <= j < vs.len() && 1 <= k < vs[j].segments.len() && vs[j].segments[k].coord == h)
        || (exists|j: int| 0 <= j < vs.len() && j != i && vs[j].head() == h)
}

/// Snake `i` is penalized this tick: it is vulnerable and its head hits.
pub open spec fn takes_penalty(vs: Seq<SnakeView>, i: int) -> bool {
    vs[i].inmortal_ticks == 0 && head_hits(vs, i)
}

/// Ceiling of three tenths of `len`: the raw number of segments a penalty
/// asks to remove.
pub open spec fn raw_penalty(len: nat) -> nat {
    ((3 * len + 9) / 10) as nat
}

/// How many segments a penalty actually removes: the raw count, but stopping
/// before the length would drop below one.
pub open spec fn segments_lost(len: nat) -> nat {
    if raw_penalty(len) > len - 1 {
        (len - 1) as nat
    } else {
        raw_penalty(len)
    }
}

impl SnakeView {
    /// The snake after one penalty: the lost segments leave from the tail
    /// and the invulnerability countdown restarts at `duration`.
    pub open spec fn after_penalty(self, duration: u8) -> SnakeView {
        SnakeView {
            segments: self.segments.take(self.len() - segments_lost(self.len())),
            inmortal_ticks: duration,
            ..self
        }
    }
}

/// A penalty never removes more than the ceiling of three tenths of the
/// length, and never drops the length below one.
pub proof fn lemma_penalty_bounds(s: SnakeView, duration: u8)
    requires
        s.len() >= 1,
    ensures
        s.len() - s.after_penalty(duration).len() <= raw_penalty(s.len()),
        s.after_penalty(duration).len() >= 1,
{
}

/// Computes how many segments a snake of length `len` loses on a hit.
pub fn penalty_size(len: usize) -> (r: usize)
    requires
        len >= 1,
    ensures
        r == segments_lost(len as nat),
{
    let raw_wide: u128 = (3 * (len as u128) + 9) / 10;
    assert(raw_wide <= len) by (nonlinear_arith)
        requires
            raw_wide == (3 * (len as u128) + 9) / 10 && len >= 1,
    ;
    let raw = raw_wide as usize;
    if raw > len - 1 {
        len - 1
    } else {
        raw
    }
}

/// Snakes after collisions are resolved: every vulnerable snake whose head
/// hits takes its penalty; all others are untouched.
pub open spec fn after_collisions(vs: Seq<SnakeView>, duration: u8) -> Seq<SnakeView> {
    Seq::new(
        vs.len(),
        |i: int|
            if takes_penalty(vs, i) {
                vs[i].after_penalty(duration)
            } else {
                vs[i]
            },
    )
}

/// The player ids of the snakes among the first `upto` that take a penalty,
/// in board order.
pub open spec fn penalized_ids(vs: Seq<SnakeView>, upto: int) -> Seq<Id>
    decreases upto,
{
    if upto <= 0 {
        Seq::empty()
    } else if takes_penalty(vs, upto - 1) {
        penalized_ids(vs, upto - 1).push(vs[upto - 1].player_number)
    } else {
        penalized_ids(vs, upto - 1)
    }
}

/// Decides whether snake `i`'s head stands on a colliding cell.
fn head_hits_exec(snakes: &Vec<Snake>, i: usize) -> (r: bool)
    requires
        i < snakes@.len(),
        forall|j: int| 0 <= j < snakes@.len() ==> (#[trigger] snakes@[j])@.len() >= 1,
    ensures
        r == head_hits(views_of(snakes@), i as int),
{
    let ghost vs = views_of(snakes@);
    let h = snakes[i].head();
    let n = snakes.len();
    let mut j: usize = 0;
    while j < n
        invariant
            h == vs[i as int].head(),
            vs == views_of(snakes@),
            n == snakes@.len(),
            i < n,
            j <= n,
            forall|t: int| 0 <= t < snakes@.len() ==> (#[trigger] snakes@[t])@.len() >= 1,
            forall|jj: int| 0 <= jj < j && jj != i ==> vs[jj].head() != h,
            forall|jj: int, kk: int|
                0 <= jj < j && 1 <= kk < vs[jj].segments.len() ==> vs[jj].segments[kk].coord != h,
        decreases n - j,
    {
        if j != i && snakes[j].head() == h {
            return true;
        }
        let m = snakes[j].segments.len();
        let mut k: usize = 1;
        while k < m
            invariant
                h == vs[i as int].head(),
                vs == views_of(snakes@),
                n == snakes@.len(),
                m == vs[j as int].segments.len(),
                i < n,
                j < n,
                1 <= k <= m,
                forall|kk: int| 1 <= kk < k ==> vs[j as int].segments[kk].coord != h,
            decreases m - k,
        {
            if snakes[j].segments[k].coord == h {
                return true;
            }
            k += 1;
        }
        j += 1;
    }
    false
}

/// Resolves all collisions of this tick: detection runs first against the
/// settled coordinates of every snake, then each vulnerable snake whose head
/// hit loses its tail fraction and becomes invulnerable for `duration`
/// ticks. Returns the penalized players' ids in board order.
pub fn collide_and_penalize(snakes: &mut Vec<Snake>, duration: u8) -> (hit_ids: Vec<Id>)
    requires
        forall|j: int| 0 <= j < old(snakes)@.len() ==> (#[trigger] old(snakes)@[j])@.len() >= 1,
    ensures
        views_of(final(snakes)@) == after_collisions(views_of(old(snakes)@), duration),
        hit_ids@ == penalized_ids(views_of(old(snakes)@), old(snakes)@.len() as int),
{
    let ghost vs = views_of(old(snakes)@);
    let n = snakes.len();
    let mut hits: Vec<bool> = Vec::new();
    let mut i: usize = 0;
    while i < n
        invariant
            vs == views_of(snakes@),
            n == snakes@.len(),
            i <= n,
            hits@.len() == i,
            forall|j: int| 0 <= j < snakes@.len() ==> (#[trigger] snakes@[j])@.len() >= 1,
            forall|t: int| 0 <= t < i ==> hits@[t] == takes_penalty(vs, t),
        decreases n - i,
    {
        let vulnerable = snakes[i].inmortal_ticks == 0;
        let hit = vulnerable && head_hits_exec(snakes, i);
        hits.push(hit);
        i += 1;
    }
    let mut hit_ids: Vec<Id> = Vec::new();
    let mut i: usize = 0;
    while i < n
        invariant
            n == snakes@.len(),
            n == hits@.len(),
            n == vs.len(),
            i <= n,
            forall|t: int| 0 <= t < n ==> hits@[t] == takes_penalty(vs, t),
            forall|j: int| 0 <= j < snakes@.len() ==> (#[trigger] snakes@[j])@.len() >= 1,
            forall|t: int| i <= t < n ==> views_of(snakes@)[t] == vs[t],
            forall|t: int|
                0 <= t < i ==> views_of(snakes@)[t] == #[trigger] after_collisions(vs, duration)[t],
            hit_ids@ == penalized_ids(vs, i as int),
        decreases n - i,
    {
        let ghost pre = snakes@;
        if hits[i] {
            let len = snakes[i].segments.len();
            let lost = penalty_size(len);
            let snake = &mut snakes[i];
            snake.segments.truncate(len - lost);
            snake.inmortal_ticks = duration;
            assert(views_of(snakes@)[i as int] == vs[i as int].after_penalty(duration));
            hit_ids.push(snakes[i].player_number);
        }
        proof {
            assert forall|t: int| 0 <= t < i + 1 implies views_of(snakes@)[t] == after_collisions(
                vs,
                duration,
            )[t] by {
                if t < i as int {
                    assert(snakes@[t] == pre[t]);
                    assert(views_of(pre)[t] == after_collisions(vs, duration)[t]);
                } else {
                    assert(views_of(snakes@)[t] == snakes@[t]@);
                    if hits@[t] {
                        assert(takes_penalty(vs, t));
                        assert(after_collisions(vs, duration)[t] == vs[t].after_penalty(duration));
                    } else {
                        assert(snakes@[t] == pre[t]);
                        assert(views_of(pre)[t] == vs[t]);
                        assert(after_collisions(vs, duration)[t] == vs[t]);
                    }
                }
            }
            assert forall|t: int| i + 1 <= t < n implies views_of(snakes@)[t] == vs[t] by {
                assert(snakes@[t] == pre[t]);
                assert(views_of(pre)[t] == vs[t]);
            }
        }
        i += 1;
    }
    proof {
        assert(views_of(snakes@) =~= after_collisions(vs, duration));
    }
    hit_ids
}

} // verus!
