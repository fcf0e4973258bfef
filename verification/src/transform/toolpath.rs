//! The order in which linear cuts are made.
//!
//! The tool walks from cut to cut, each time to the cut that is nearest:
//! the one whose start or end lies closest to where the tool stands. A cut
//! reached at its end is made backwards. Distances reach the walk as keys,
//! unsigned integers that are ordered as the distances are; the walk
//! compares them, it does not measure.

use crate::model::cut::{turned, Cut};
use vstd::prelude::*;

verus! {

/// The key of the greatest finite distance. A candidate is taken only
/// where its key lies below this one.
pub const FARTHEST: u64 = 0x7FEF_FFFF_FFFF_FFFF;

/// One cut in a tool path.
#[derive(Debug, Clone, Copy, PartialEq, Eq, Structural)]
pub struct Visit {
    /// Index of the cut.
    pub index: usize,
    /// Whether the cut is made from its end to its start.
    pub reversed: bool,
}

/// The key of candidate `c`. The candidates of `n` cuts are numbered from
/// 0 to `2n - 1`: the start of the first cut, its end, the start of the
/// second cut, its end, and so on.
pub open spec fn candidate_key(keys: Seq<(u64, u64)>, c: int) -> u64 {
    if c % 2 == 0 {
        keys[c / 2].0
    } else {
        keys[c / 2].1
    }
}

/// Whether candidate `c` is the nearest: its key lies below `FARTHEST`,
/// every candidate before it has a greater key and none after it a
/// smaller one.
pub open spec fn is_nearest(keys: Seq<(u64, u64)>, c: int) -> bool {
    &&& 0 <= c < 2 * keys.len()
    &&& candidate_key(keys, c) < FARTHEST
    &&& forall|d: int| 0 <= d < c ==> candidate_key(keys, d) > candidate_key(keys, c)
    &&& forall|d: int| c <= d < 2 * keys.len() ==> candidate_key(keys, d) >= candidate_key(keys, c)
}

/// Whether no candidate can be taken: every key is `FARTHEST` or above.
pub open spec fn none_near(keys: Seq<(u64, u64)>) -> bool {
    forall|d: int| 0 <= d < 2 * keys.len() ==> candidate_key(keys, d) >= FARTHEST
}

/// Whether `(position, reversed)` is the choice among the cuts with the
/// given keys: the nearest candidate, or the first cut, made forwards,
/// where no candidate can be taken.
pub open spec fn is_choice(keys: Seq<(u64, u64)>, position: int, reversed: bool) -> bool {
    if none_near(keys) {
        position == 0 && !reversed
    } else {
        is_nearest(
            keys,
            2 * position + if reversed {
                1int
            } else {
                0int
            },
        )
    }
}

/// Chooses among cuts by the keys of their start and end distances.
pub fn choose_nearest(keys: &Vec<(u64, u64)>) -> (r: (usize, bool))
    ensures
        is_choice(keys@, r.0 as int, r.1),
        keys.len() > 0 ==> r.0 < keys.len(),
{
    let mut best: usize = 0;
    let mut reversed = false;
    let mut least: u64 = FARTHEST;
    let mut i: usize = 0;
    while i < keys.len()
        invariant
            i <= keys.len(),
            least <= FARTHEST,
            least == FARTHEST ==> best == 0 && !reversed && forall|d: int|
                0 <= d < 2 * i ==> candidate_key(keys@, d) >= FARTHEST,
            least < FARTHEST ==> {
                let c = 2 * best + if reversed {
                    1int
                } else {
                    0int
                };
                &&& best < i
                &&& candidate_key(keys@, c) == least
                &&& forall|d: int| 0 <= d < c ==> candidate_key(keys@, d) > least
                &&& forall|d: int| c <= d < 2 * i ==> candidate_key(keys@, d) >= least
            },
        decreases keys.len() - i,
    {
        let (start_key, end_key) = keys[i];
        assert(candidate_key(keys@, 2 * i) == start_key);
        assert(candidate_key(keys@, 2 * i + 1) == end_key);
        if start_key < least {
            least = start_key;
            best = i;
            reversed = false;
        }
        if end_key < least {
            least = end_key;
            best = i;
            reversed = true;
        }
        i += 1;
    }
    (best, reversed)
}

/// Whether `order` visits each of the given indices at most once.
pub open spec fn visits_distinct(order: Seq<Visit>) -> bool {
    forall|a: int, b: int| 0 <= a < b < order.len() ==> order[a].index != order[b].index
}

/// Whether `order` visits index `i`.
pub open spec fn visits(order: Seq<Visit>, i: int) -> bool {
    exists|a: int| 0 <= a < order.len() && (#[trigger] order[a]).index == i
}

/// How many of `cuts` are active.
pub open spec fn active_count<N>(cuts: Seq<Cut<N>>) -> nat
    decreases cuts.len(),
{
    if cuts.len() == 0 {
        0
    } else {
        active_count(cuts.drop_last()) + if cuts.last().active {
            1nat
        } else {
            0nat
        }
    }
}

/// The cuts of `order`, each turned round where it is made backwards.
pub open spec fn visited_cuts<N>(cuts: Seq<Cut<N>>, order: Seq<Visit>) -> Seq<Cut<N>> {
    Seq::new(
        order.len(),
        |a: int|
            if order[a].reversed {
                turned(cuts[order[a].index as int])
            } else {
                cuts[order[a].index as int]
            },
    )
}

/// The cuts that are not active, in order.
pub open spec fn inactive_cuts<N>(cuts: Seq<Cut<N>>) -> Seq<Cut<N>> {
    cuts.filter(|c: Cut<N>| !c.active)
}

/// A walk over the active cuts of a list: where the tool stands, the cuts
/// still to be made and the cuts made so far.
pub struct CutWalk<N> {
    position: (N, N),
    remaining: Vec<usize>,
    order: Vec<Visit>,
}

impl<N: Copy> CutWalk<N> {
    /// Where the tool stands.
    pub closed spec fn at(&self) -> (N, N) {
        self.position
    }

    /// The cuts still to be made, by index, in ascending order.
    pub closed spec fn left(&self) -> Seq<usize> {
        self.remaining@
    }

    /// The cuts made so far.
    pub closed spec fn made(&self) -> Seq<Visit> {
        self.order@
    }

    /// The walk is a walk over `cuts`: each active cut is either still to
    /// be made or made, never both and never twice, and no other cut is.
    pub open spec fn wf(&self, cuts: Seq<Cut<N>>) -> bool {
        &&& forall|a: int, b: int| 0 <= a < b < self.left().len() ==> self.left()[a] < self.left()[b]
        &&& forall|a: int|
            0 <= a < self.left().len() ==> (#[trigger] self.left()[a]) < cuts.len()
                && cuts[self.left()[a] as int].active
        &&& forall|a: int|
            0 <= a < self.made().len() ==> (#[trigger] self.made()[a]).index < cuts.len()
                && cuts[self.made()[a].index as int].active
        &&& visits_distinct(self.made())
        &&& forall|a: int, b: int|
            0 <= a < self.left().len() && 0 <= b < self.made().len() ==> self.left()[a]
                != self.made()[b].index
        &&& forall|i: int|
            0 <= i < cuts.len() && (#[trigger] cuts[i]).active ==> visits(self.made(), i)
                || self.left().contains(i as usize)
        &&& self.made().len() + self.left().len() == active_count(cuts)
    }

    /// A walk that starts at `origin` with every active cut still to be
    /// made.
    pub fn start(cuts: &Vec<Cut<N>>, origin: (N, N)) -> (w: CutWalk<N>)
        ensures
            w.wf(cuts@),
            w.at() == origin,
            w.made().len() == 0,
            w.left().len() == active_count(cuts@),
            forall|i: int|
                0 <= i < cuts.len() ==> (w.left().contains(i as usize) <==> (#[trigger] cuts[i]).active),
    {
        let mut remaining: Vec<usize> = Vec::new();
        let mut i: usize = 0;
        while i < cuts.len()
            invariant
                i <= cuts.len(),
                forall|a: int, b: int| 0 <= a < b < remaining.len() ==> remaining[a] < remaining[b],
                forall|a: int|
                    0 <= a < remaining.len() ==> (#[trigger] remaining[a]) < i
                        && cuts[remaining[a] as int].active,
                forall|k: int|
                    0 <= k < i && (#[trigger] cuts[k]).active ==> remaining@.contains(k as usize),
                remaining.len() == active_count(cuts@.take(i as int)),
            decreases cuts.len() - i,
        {
            assert(cuts@.take(i + 1).drop_last() =~= cuts@.take(i as int));
            if cuts[i].active {
                let ghost before = remaining@;
                remaining.push(i);
                proof {
                    assert forall|k: int| 0 <= k < i + 1 && (#[trigger] cuts[k]).active implies remaining@.contains(
                        k as usize,
                    ) by {
                        if k < i {
                            let a = choose|a: int| 0 <= a < before.len() && before[a] == k as usize;
                            assert(remaining@[a] == k as usize);
                        } else {
                            assert(remaining@[before.len() as int] == i);
                        }
                    }
                }
            }
            i += 1;
        }
        assert(cuts@.take(cuts.len() as int) =~= cuts@);
        CutWalk { position: origin, remaining, order: Vec::new() }
    }

    /// Where the tool stands.
    pub fn position(&self) -> (p: (N, N))
        ensures
            p == self.at(),
    {
        self.position
    }

    /// The cuts still to be made, by index, in ascending order.
    pub fn remaining(&self) -> (r: &Vec<usize>)
        ensures
            r@ == self.left(),
    {
        &self.remaining
    }

    /// The cuts made so far.
    pub fn order(&self) -> (r: &Vec<Visit>)
        ensures
            r@ == self.made(),
    {
        &self.order
    }

    /// Whether every active cut is made.
    pub fn is_done(&self) -> (r: bool)
        ensures
            r == (self.left().len() == 0),
    {
        self.remaining.len() == 0
    }

    /// Makes the next cut: the one among the cuts still to be made that
    /// the keys choose. `keys[a]` holds the keys of the distances from
    /// where the tool stands to the start and to the end of cut
    /// `remaining()[a]`. The tool then stands at the far end of that cut.
    pub fn advance(&mut self, cuts: &Vec<Cut<N>>, keys: &Vec<(u64, u64)>) -> (v: Visit)
        requires
            old(self).wf(cuts@),
            old(self).left().len() > 0,
            keys.len() == old(self).left().len(),
        ensures
            final(self).wf(cuts@),
            exists|p: int|
                0 <= p < old(self).left().len() && is_choice(keys@, p, v.reversed) && v.index == old(
                    self,
                ).left()[p] && final(self).left() == old(self).left().remove(p),
            final(self).made() == old(self).made().push(v),
            final(self).at() == if v.reversed {
                (cuts[v.index as int].xi, cuts[v.index as int].yi)
            } else {
                (cuts[v.index as int].xf, cuts[v.index as int].yf)
            },
    {
        let (p, reversed) = choose_nearest(keys);
        let ghost left = self.remaining@;
        let ghost made = self.order@;
        let index = self.remaining.remove(p);
        let v = Visit { index, reversed };
        self.order.push(v);
        let cut = &cuts[index];
        self.position = if reversed {
            (cut.xi, cut.yi)
        } else {
            (cut.xf, cut.yf)
        };
        proof {
            let now = self.remaining@;
            assert(now =~= left.remove(p as int));
            assert forall|a: int, b: int| 0 <= a < b < now.len() implies now[a] < now[b] by {
                let a0 = if a < p { a } else { a + 1 };
                let b0 = if b < p { b } else { b + 1 };
                assert(now[a] == left[a0] && now[b] == left[b0]);
            }
            assert forall|a: int| 0 <= a < now.len() implies (#[trigger] now[a]) < cuts.len()
                && cuts[now[a] as int].active && now[a] != index by {
                let a0 = if a < p { a } else { a + 1 };
                assert(now[a] == left[a0]);
            }
            assert forall|a: int, b: int| 0 <= a < b < self.order@.len() implies self.order@[a].index
                != self.order@[b].index by {
                if b == made.len() {
                    assert(self.order@[a] == made[a]);
                    assert(left[p as int] != made[a].index);
                }
            }
            assert forall|a: int, b: int|
                0 <= a < now.len() && 0 <= b < self.order@.len() implies now[a]
                != self.order@[b].index by {
                let a0 = if a < p { a } else { a + 1 };
                assert(now[a] == left[a0]);
                if b < made.len() {
                    assert(self.order@[b] == made[b]);
                }
            }
            assert forall|i: int| 0 <= i < cuts.len() && (#[trigger] cuts[i]).active implies visits(
                self.order@,
                i,
            ) || now.contains(i as usize) by {
                if visits(made, i) {
                    let a = choose|a: int| 0 <= a < made.len() && (#[trigger] made[a]).index == i;
                    assert(self.order@[a].index == i);
                } else {
                    assert(left.contains(i as usize));
                    let a = choose|a: int| 0 <= a < left.len() && left[a] == i as usize;
                    if a == p {
                        assert(self.order@[made.len() as int].index == i);
                    } else {
                        let a1 = if a < p { a } else { a - 1 };
                        assert(now[a1] == i as usize);
                    }
                }
            }
        }
        v
    }

    /// The cuts in their new order: the cuts made, in the order made and
    /// each turned round where it was made backwards, then the cuts that
    /// are not active, in the order they had.
    pub fn arrange(&self, cuts: Vec<Cut<N>>) -> (out: Vec<Cut<N>>)
        requires
            self.wf(cuts@),
            self.left().len() == 0,
        ensures
            out@ == visited_cuts(cuts@, self.made()) + inactive_cuts(cuts@),
    {
        let ghost all = cuts@;
        let n = cuts.len();
        // take the cuts out of their list, last first
        let mut cuts = cuts;
        let mut back: Vec<Option<Cut<N>>> = Vec::new();
        while cuts.len() > 0
            invariant
                cuts.len() + back.len() == n,
                n == all.len(),
                cuts@ == all.take(cuts.len() as int),
                forall|k: int| 0 <= k < back.len() ==> #[trigger] back[k] == Some(all[n - 1 - k]),
            decreases cuts.len(),
        {
            let c = cuts.pop();
            back.push(c);
            assert(cuts@ =~= all.take(cuts.len() as int));
        }
        let mut slots: Vec<Option<Cut<N>>> = Vec::new();
        while back.len() > 0
            invariant
                slots.len() + back.len() == n,
                n == all.len(),
                forall|k: int| 0 <= k < back.len() ==> #[trigger] back[k] == Some(all[n - 1 - k]),
                forall|k: int| 0 <= k < slots.len() ==> #[trigger] slots[k] == Some(all[k]),
            decreases back.len(),
        {
            let c = back.pop();
            match c {
                Some(slot) => {
                    slots.push(slot);
                },
                None => {},
            }
        }
        // the cuts made, in the order made
        let mut out: Vec<Cut<N>> = Vec::new();
        let mut a: usize = 0;
        while a < self.order.len()
            invariant
                a <= self.order.len(),
                self.wf(all),
                slots.len() == n,
                n == all.len(),
                out@ == visited_cuts(all, self.made().take(a as int)),
                forall|k: int|
                    0 <= k < n ==> #[trigger] slots[k] == (if visits(self.made().take(a as int), k) {
                        None
                    } else {
                        Some(all[k])
                    }),
            decreases self.order.len() - a,
        {
            let v = self.order[a];
            let ghost done = self.made().take(a as int);
            let ghost next = self.made().take(a + 1);
            proof {
                assert(self.made()[a as int] == v);
                assert(!visits(done, v.index as int)) by {
                    if visits(done, v.index as int) {
                        let b = choose|b: int| 0 <= b < done.len() && (#[trigger] done[b]).index == v.index;
                        assert(self.made()[b].index == self.made()[a as int].index);
                    }
                }
            }
            let taken = slots[v.index].take();
            match taken {
                Some(cut) => {
                    let mut cut = cut;
                    if v.reversed {
                        cut.reverse();
                    }
                    out.push(cut);
                },
                None => {},
            }
            proof {
                assert(next.drop_last() =~= done);
                assert(out@ =~= visited_cuts(all, next));
                assert forall|k: int| 0 <= k < n implies #[trigger] slots[k] == (if visits(next, k) {
                    None
                } else {
                    Some(all[k])
                }) by {
                    if k == v.index {
                        assert(next[a as int].index == k);
                    } else {
                        if visits(done, k) {
                            let b = choose|b: int| 0 <= b < done.len() && (#[trigger] done[b]).index == k;
                            assert(next[b].index == k);
                        }
                        if visits(next, k) {
                            let b = choose|b: int| 0 <= b < next.len() && (#[trigger] next[b]).index == k;
                            assert(b < a);
                            assert(done[b].index == k);
                        }
                    }
                }
            }
            a += 1;
        }
        assert(self.made().take(self.order.len() as int) =~= self.made());
        proof {
            lemma_walk_visits_each_once(*self, all);
        }
        // the cuts that are not active, in the order they had
        let ghost head = out@;
        let mut k: usize = 0;
        proof {
            reveal(Seq::filter);
            assert(all.take(0) =~= Seq::empty());
            assert(out@ =~= head + inactive_cuts(all.take(0)));
        }
        while k < n
            invariant
                k <= n,
                slots.len() == n,
                n == all.len(),
                forall|j: int|
                    k <= j < n ==> #[trigger] slots[j] == (if all[j].active {
                        None
                    } else {
                        Some(all[j])
                    }),
                out@ == head + inactive_cuts(all.take(k as int)),
            decreases n - k,
        {
            let taken = slots[k].take();
            proof {
                reveal(Seq::filter);
                assert(all.take(k + 1).drop_last() =~= all.take(k as int));
                assert(all.take(k + 1).last() == all[k as int]);
            }
            match taken {
                Some(cut) => {
                    out.push(cut);
                    assert(out@ =~= head + inactive_cuts(all.take(k + 1)));
                },
                None => {},
            }
            k += 1;
        }
        assert(all.take(n as int) =~= all);
        out
    }
}

/// A walk never makes a cut twice, and when nothing is left it has made each
/// active cut once and no other: as many steps as there are active cuts.
pub proof fn lemma_walk_visits_each_once<N: Copy>(w: CutWalk<N>, cuts: Seq<Cut<N>>)
    requires
        w.wf(cuts),
    ensures
        visits_distinct(w.made()),
        w.made().len() <= active_count(cuts),
        w.left().len() == 0 ==> w.made().len() == active_count(cuts),
        w.left().len() == 0 ==> forall|i: int|
            0 <= i < cuts.len() ==> (visits(w.made(), i) <==> (#[trigger] cuts[i]).active),
{
    if w.left().len() == 0 {
        assert forall|i: int| 0 <= i < cuts.len() implies (visits(w.made(), i) <==> (
        #[trigger] cuts[i]).active) by {
            if visits(w.made(), i) {
                let a = choose|a: int| 0 <= a < w.made().len() && (#[trigger] w.made()[a]).index == i;
                assert(cuts[w.made()[a].index as int].active);
            }
            if cuts[i].active {
                assert(!w.left().contains(i as usize));
            }
        }
    }
}

} // verus!
