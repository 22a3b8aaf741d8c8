//! Win detection: a two-state machine over a provisional leader and a hold
//! timer. The top snake is provisional leader only while its length reaches
//! the win threshold and strictly exceeds every other snake's; any change of
//! leader identity resets the hold timer to its full duration, and Won is
//! emitted only once the same leader has held for the whole duration.

use vstd::prelude::*;

use crate::collision::views_of;
use crate::snake::{Id, Snake, SnakeView};

verus! {

/// The sustained-lead hold timer with the provisional leader it watches.
#[derive(Clone, Copy, Debug)]
pub struct WinTracker {
    /// The provisional leader, if any.
    pub current: Option<Id>,
    /// Hold steps left before the current leader wins; always at least one.
    pub remaining: u32,
}

/// Snake `i` is the sole leader: it reaches the win threshold and is strictly
/// longer than every other snake.
pub open spec fn is_sole_leader(vs: Seq<SnakeView>, i: int, threshold: usize) -> bool {
    &&& 0 <= i < vs.len()
    &&& vs[i].len() >= threshold
    &&& forall|j: int| 0 <= j < vs.len() && j != i ==> (#[trigger] vs[j]).len() < vs[i].len()
}

/// The provisional leader of the round, if any snake is the sole leader.
pub open spec fn leader_of(vs: Seq<SnakeView>, threshold: usize) -> Option<Id> {
    if exists|i: int| is_sole_leader(vs, i, threshold) {
        Some(vs[choose|i: int| is_sole_leader(vs, i, threshold)].player_number)
    } else {
        None
    }
}

impl WinTracker {
    /// The tracker is well formed for hold duration `hold`.
    pub open spec fn wf(self, hold: u32) -> bool {
        1 <= self.remaining <= hold
    }

    /// One evaluation of the tracker against the provisional `leader` of
    /// this instant: a change of leader identity (including to or from none)
    /// resets the timer to the full duration; while the same leader
    /// persists the timer counts down, and at zero it emits Won.
    pub open spec fn stepped(self, leader: Option<Id>, hold: u32) -> (WinTracker, bool) {
        if leader != self.current {
            (WinTracker { current: leader, remaining: hold }, false)
        } else if leader is Some {
            if self.remaining <= 1 {
                (WinTracker { current: leader, remaining: hold }, true)
            } else {
                (WinTracker { current: leader, remaining: (self.remaining - 1) as u32 }, false)
            }
        } else {
            (WinTracker { current: leader, remaining: hold }, false)
        }
    }

    /// Runs one evaluation; returns whether Won is emitted now.
    pub fn step(&mut self, leader: Option<Id>, hold: u32) -> (won: bool)
        requires
            old(self).wf(hold),
        ensures
            (*final(self), won) == old(self).stepped(leader, hold),
            final(self).wf(hold),
    {
        let same = match (leader, self.current) {
            (Some(a), Some(b)) => a == b,
            (None, None) => true,
            _ => false,
        };
        if !same {
            self.current = leader;
            self.remaining = hold;
            false
        } else if leader.is_some() {
            if self.remaining <= 1 {
                self.remaining = hold;
                true
            } else {
                self.remaining = self.remaining - 1;
                false
            }
        } else {
            self.remaining = hold;
            false
        }
    }
}

/// The hold timer resets to its full duration the instant the provisional
/// leader changes, and that evaluation never emits Won.
pub proof fn lemma_timer_resets_on_leader_change(w: WinTracker, leader: Option<Id>, hold: u32)
    requires
        leader != w.current,
    ensures
        w.stepped(leader, hold).0.remaining == hold,
        !w.stepped(leader, hold).1,
{
}

/// Some evaluation in the run of `ls` emits Won.
pub open spec fn any_won(w: WinTracker, ls: Seq<Option<Id>>, hold: u32) -> bool
    decreases ls.len(),
{
    if ls.len() == 0 {
        false
    } else {
        w.stepped(ls[0], hold).1 || any_won(w.stepped(ls[0], hold).0, ls.drop_first(), hold)
    }
}

/// A full uninterrupted hold stands somewhere in `ls`: `hold` consecutive
/// evaluations all see the same provisional leader, and it is somebody.
pub open spec fn has_full_hold(ls: Seq<Option<Id>>, hold: u32) -> bool {
    exists|k: int|
        0 <= k && k + hold <= ls.len() && ls[k] is Some && (forall|t: int|
            k <= t < k + hold ==> ls[t] == ls[k])
}

proof fn lemma_full_hold_aux(w: WinTracker, ls: Seq<Option<Id>>, hold: u32)
    requires
        w.wf(hold),
    ensures
        any_won(w, ls, hold) ==> (w.current is Some && w.remaining <= ls.len() && (forall|t: int|
            0 <= t < w.remaining ==> ls[t] == w.current)) || has_full_hold(ls, hold),
    decreases ls.len(),
{
    if ls.len() == 0 {
    } else {
        let (w2, e) = w.stepped(ls[0], hold);
        let tail = ls.drop_first();
        lemma_full_hold_aux(w2, tail, hold);
        if any_won(w, ls, hold) {
            if e {
                assert(ls[0] == w.current && w.remaining == 1);
            } else if any_won(w2, tail, hold) {
                if has_full_hold(tail, hold) {
                    let k = choose|k: int|
                        0 <= k && k + hold <= tail.len() && tail[k] is Some && (forall|t: int|
                            k <= t < k + hold ==> tail[t] == tail[k]);
                    assert forall|t: int| k + 1 <= t < k + 1 + hold implies #[trigger] ls[t] == ls[k + 1] by {
                        assert(tail[t - 1] == tail[k]);
                    }
                    assert(has_full_hold(ls, hold));
                } else if w2.current is Some && w2.remaining <= tail.len() && (forall|t: int|
                    0 <= t < w2.remaining ==> tail[t] == w2.current) {
                    if ls[0] != w.current {
                        // the timer restarted on ls[0]: the tail alone holds a full window
                        assert forall|t: int| 1 <= t < 1 + hold implies #[trigger] ls[t] == ls[1] by {
                            assert(tail[t - 1] == w2.current);
                            assert(tail[0] == w2.current);
                        }
                        assert(ls[1] == w2.current);
                        assert(has_full_hold(ls, hold));
                    } else if ls[0] is Some {
                        if w.remaining <= 1 {
                            // emission reset the timer; the tail holds a full window
                            assert forall|t: int| 1 <= t < 1 + hold implies #[trigger] ls[t] == ls[1] by {
                                assert(tail[t - 1] == w2.current);
                                assert(tail[0] == w2.current);
                            }
                            assert(ls[1] == w2.current);
                            assert(has_full_hold(ls, hold));
                        } else {
                            // the same leader persists: extend the partial hold by ls[0]
                            assert forall|t: int| 0 <= t < w.remaining implies ls[t] == w.current
                            by {
                                if t >= 1 {
                                    assert(tail[t - 1] == w2.current);
                                }
                            }
                        }
                    } else {
                        // no leader on both sides: the timer stays full, w2.current is none
                        assert(false);
                    }
                }
            }
        }
    }
}

/// Won is emitted only after an uninterrupted full hold duration with the
/// same provisional leader: starting from a freshly reset timer, if any
/// evaluation of the run emits Won, then `hold` consecutive evaluations saw
/// one unchanged leader.
pub proof fn lemma_won_needs_full_hold(w: WinTracker, ls: Seq<Option<Id>>, hold: u32)
    requires
        hold >= 1,
        w.remaining == hold,
        any_won(w, ls, hold),
    ensures
        has_full_hold(ls, hold),
{
    lemma_full_hold_aux(w, ls, hold);
    if !has_full_hold(ls, hold) {
        assert(w.current is Some && w.remaining <= ls.len() && (forall|t: int|
            0 <= t < w.remaining ==> ls[t] == w.current));
        assert(ls[0] == w.current);
        assert(has_full_hold(ls, hold));
    }
}

/// Finds the provisional leader among the snakes: the sole strictly longest
/// one, provided it reaches the win threshold.
pub fn provisional_leader(snakes: &Vec<Snake>, threshold: usize) -> (r: Option<Id>)
    requires
        snakes@.len() >= 1,
    ensures
        r == leader_of(views_of(snakes@), threshold),
{
    let ghost vs = views_of(snakes@);
    let n = snakes.len();
    let mut best: usize = 0;
    let mut best_len: usize = snakes[0].len();
    let mut unique: bool = true;
    let ghost mut rival: int = 0;
    let mut j: usize = 1;
    while j < n
        invariant
            vs == views_of(snakes@),
            n == vs.len(),
            1 <= j <= n,
            best < j,
            best_len == vs[best as int].len(),
            forall|t: int| 0 <= t < j ==> (#[trigger] vs[t]).len() <= best_len,
            unique ==> forall|t: int|
                0 <= t < j && t != best ==> (#[trigger] vs[t]).len() < best_len,
            !unique ==> 0 <= rival < j && rival != best && vs[rival].len() == best_len,
        decreases n - j,
    {
        let l = snakes[j].len();
        if l > best_len {
            best = j;
            best_len = l;
            unique = true;
        } else if l == best_len {
            unique = false;
            proof {
                rival = j as int;
            }
        }
        j += 1;
    }
    if unique && best_len >= threshold {
        proof {
            assert(is_sole_leader(vs, best as int, threshold));
            let w = choose|i: int| is_sole_leader(vs, i, threshold);
            assert(vs[w].len() <= vs[best as int].len());
            assert(vs[best as int].len() <= vs[w].len());
            assert(w == best as int);
        }
        Some(snakes[best].player_number)
    } else {
        proof {
            if exists|i: int| is_sole_leader(vs, i, threshold) {
                let w = choose|i: int| is_sole_leader(vs, i, threshold);
                assert(vs[w].len() <= best_len);
                if !unique {
                    assert(vs[rival].len() < vs[w].len() || rival == w);
                    assert(vs[best as int].len() < vs[w].len() || best as int == w);
                    assert(false);
                }
            }
        }
        None
    }
}

} // verus!
