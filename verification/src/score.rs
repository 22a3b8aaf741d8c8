//! The read-only scoreboard: a (name, colour, length) snapshot per snake,
//! sorted by length, longest first.

use vstd::prelude::*;
use vstd::multiset::Multiset;

use crate::game::GameState;
use crate::snake::SnakeColor;

verus! {

/// One scoreboard row.
#[derive(Clone, Copy, Debug)]
pub struct ScoreEntry {
    /// The snake's name.
    pub name: &'static str,
    /// The snake's colour.
    pub color: SnakeColor,
    /// The snake's length in segments.
    pub length: usize,
}

/// The board-order ranking pairs of a round: each snake's length with its
/// board index.
pub open spec fn ranking_pairs(g: GameState) -> Seq<(usize, usize)> {
    Seq::new(g.snakes@.len(), |i: int| (g.snakes@[i]@.len() as usize, i as usize))
}

/// Sorts (length, index) pairs descending by length: the result is a
/// permutation of the input, longest first.
fn sort_ranking(pairs: Vec<(usize, usize)>) -> (r: Vec<(usize, usize)>)
    ensures
        r@.to_multiset() == pairs@.to_multiset(),
        r@.len() == pairs@.len(),
        forall|t1: int, t2: int| 0 <= t1 <= t2 < r@.len() ==> (#[trigger] r@[t1]).0 >= (
        #[trigger] r@[t2]).0,
{
    broadcast use vstd::seq_lib::group_to_multiset_ensures;
    broadcast use vstd::multiset::group_multiset_axioms;

    let ghost orig = pairs@;
    let mut work = pairs;
    let mut out: Vec<(usize, usize)> = Vec::new();
    while work.len() > 0
        invariant
            out@.to_multiset().add(work@.to_multiset()) =~= orig.to_multiset(),
            out@.len() + work@.len() == orig.len(),
            forall|t1: int, t2: int| 0 <= t1 <= t2 < out@.len() ==> (#[trigger] out@[t1]).0 >= (
            #[trigger] out@[t2]).0,
            forall|t: int, w: int|
                0 <= t < out@.len() && 0 <= w < work@.len() ==> (#[trigger] out@[t]).0 >= (
                #[trigger] work@[w]).0,
        decreases work@.len(),
    {
        let m = work.len();
        let mut top: usize = 0;
        let mut w: usize = 1;
        while w < m
            invariant
                m == work@.len(),
                top < w <= m,
                forall|t: int| 0 <= t < w ==> (#[trigger] work@[t]).0 <= work@[top as int].0,
            decreases m - w,
        {
            if work[w].0 > work[top].0 {
                top = w;
            }
            w += 1;
        }
        let ghost pre = work@;
        let chosen = work.remove(top);
        proof {
            vstd::seq_lib::to_multiset_remove(pre, top as int);
            vstd::seq_lib::to_multiset_contains(pre, chosen);
            vstd::seq_lib::to_multiset_build(out@, chosen);
            assert(work@ == pre.remove(top as int));
            assert(pre.remove(top as int).to_multiset() =~= pre.to_multiset().remove(chosen));
            assert(pre.contains(chosen));
            assert(pre.to_multiset().count(chosen) > 0);
            assert(out@.push(chosen).to_multiset() =~= out@.to_multiset().insert(chosen));
            assert(out@.push(chosen).to_multiset().add(work@.to_multiset()) =~= orig.to_multiset());
            assert forall|ww: int| 0 <= ww < work@.len() implies (#[trigger] work@[ww]).0
                <= chosen.0 by {
                if ww < top as int {
                    assert(work@[ww] == pre[ww]);
                } else {
                    assert(work@[ww] == pre[ww + 1]);
                }
            }
        }
        out.push(chosen);
    }
    proof {
        broadcast use vstd::multiset::lemma_multiset_empty_len;

        vstd::seq_lib::to_multiset_len(work@);
        assert(work@.to_multiset().len() == 0);
        assert(work@.to_multiset() =~= Multiset::empty());
        assert(out@.to_multiset() =~= orig.to_multiset());
        assert(out@.to_multiset().len() == orig.to_multiset().len());
    }
    out
}

impl GameState {
    /// The scoreboard: one row per snake with its name, colour and length,
    /// sorted by length, longest first. Row `t` shows the snake whose board
    /// index is `order[t].1`, for some descending-by-length permutation
    /// `order` of the round's ranking pairs.
    pub fn scoreboard(&self) -> (r: Vec<ScoreEntry>)
        requires
            self.wf(),
        ensures
            r@.len() == self.snakes@.len(),
            exists|order: Seq<(usize, usize)>|
                {
                    &&& #[trigger] order.to_multiset() == ranking_pairs(*self).to_multiset()
                    &&& order.len() == r@.len()
                    &&& forall|t1: int, t2: int|
                        0 <= t1 <= t2 < order.len() ==> (#[trigger] order[t1]).0 >= (
                        #[trigger] order[t2]).0
                    &&& forall|t: int|
                        0 <= t < order.len() ==> {
                            let j = (#[trigger] order[t]).1 as int;
                            &&& 0 <= j < self.snakes@.len()
                            &&& r@[t].name == self.snakes@[j].name
                            &&& r@[t].color == self.snakes@[j].color
                            &&& r@[t].length == order[t].0
                        }
                },
    {
        broadcast use vstd::seq_lib::group_to_multiset_ensures;
        broadcast use vstd::multiset::group_multiset_axioms;
    broadcast use vstd::multiset::group_multiset_axioms;

        let ghost rp = ranking_pairs(*self);
        let n = self.snakes.len();
        let mut pairs: Vec<(usize, usize)> = Vec::new();
        let mut i: usize = 0;
        while i < n
            invariant
                n == self.snakes@.len(),
                i <= n,
                pairs@.len() == i,
                rp == ranking_pairs(*self),
                forall|t: int| 0 <= t < i ==> pairs@[t] == #[trigger] rp[t],
            decreases n - i,
        {
            let l = self.snakes[i].len();
            pairs.push((l, i));
            i += 1;
        }
        proof {
            assert(pairs@ =~= rp);
        }
        let order = sort_ranking(pairs);
        let mut r: Vec<ScoreEntry> = Vec::new();
        let mut t: usize = 0;
        while t < order.len()
            invariant
                rp == ranking_pairs(*self),
                order@.to_multiset() == rp.to_multiset(),
                order@.len() == rp.len() == self.snakes@.len(),
                t <= order@.len(),
                r@.len() == t,
                forall|s: int| 0 <= s < t ==> {
                    let j = (#[trigger] order@[s]).1 as int;
                    &&& 0 <= j < self.snakes@.len()
                    &&& r@[s].name == self.snakes@[j].name
                    &&& r@[s].color == self.snakes@[j].color
                    &&& r@[s].length == order@[s].0
                },
            decreases order@.len() - t,
        {
            proof {
                vstd::seq_lib::to_multiset_contains(order@, order@[t as int]);
                vstd::seq_lib::to_multiset_contains(rp, order@[t as int]);
                assert(order@.contains(order@[t as int]));
                assert(order@.to_multiset().count(order@[t as int]) > 0);
                assert(rp.to_multiset().count(order@[t as int]) > 0);
                assert(rp.contains(order@[t as int]));
                let j = choose|j: int| 0 <= j < rp.len() && rp[j] == order@[t as int];
                assert(rp[j] == (self.snakes@[j]@.len() as usize, j as usize));
                assert(order@[t as int].1 as int == j);
            }
            let (length, j) = order[t];
            let entry = ScoreEntry { name: self.snakes[j].name, color: self.snakes[j].color, length };
            r.push(entry);
            t += 1;
        }
        proof {
            let witness = order@;
            assert(witness.to_multiset() == ranking_pairs(*self).to_multiset());
        }
        r
    }
}

} // verus!
