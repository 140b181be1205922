//! Free-form scoreboards: a tally of scores by user, ranked on demand. The
//! command plumbing around it lives outside this crate.

use vstd::prelude::*;

use crate::assoc::{
    alist_find, alist_map, lemma_alist_map_absent, lemma_alist_map_index, lemma_alist_push,
    lemma_alist_update, unique_keys,
};

verus! {

/// One scoreboard: a score per user.
#[derive(Clone)]
pub struct Scoreboard {
    /// The scores, one entry per user.
    pub scores: Vec<(u64, i64)>,
}

/// Entries in weakly descending score order.
pub open spec fn sorted_desc(s: Seq<(u64, i64)>) -> bool {
    forall|i: int, j: int| 0 <= i < j < s.len() ==> s[i].1 >= s[j].1
}

/// A descending arrangement of exactly the given entries. Which of two
/// equal-scored entries comes first is left open, as the ranking makes no
/// promise about it.
pub open spec fn is_ranking(entries: Seq<(u64, i64)>, sorted: Seq<(u64, i64)>) -> bool {
    &&& sorted.to_multiset() == entries.to_multiset()
    &&& sorted_desc(sorted)
}

impl Scoreboard {
    /// Internal consistency: one entry per user.
    pub open spec fn wf(self) -> bool {
        unique_keys(self.scores@)
    }

    /// The tally as a map from user to score.
    pub open spec fn score_map(self) -> Map<u64, i64> {
        alist_map(self.scores@)
    }

    /// An empty scoreboard.
    pub fn new() -> (r: Scoreboard)
        ensures
            r.wf(),
            r.scores@.len() == 0,
            r.score_map() == Map::<u64, i64>::empty(),
    {
        let r = Scoreboard { scores: Vec::new() };
        proof {
            assert(r.score_map() =~= Map::<u64, i64>::empty());
        }
        r
    }

    /// Set a user's score, returning the score it replaces, if any.
    pub fn set_user(&mut self, user: u64, score: i64) -> (prev: Option<i64>)
        requires
            old(self).wf(),
        ensures
            final(self).wf(),
            final(self).score_map() == old(self).score_map().insert(user, score),
            prev == (if old(self).score_map().contains_key(user) {
                Some(old(self).score_map()[user])
            } else {
                None::<i64>
            }),
    {
        let ghost s0 = self.scores@;
        match alist_find(&self.scores, user) {
            Some(i) => {
                proof {
                    lemma_alist_map_index(s0, i as int);
                }
                let prev = self.scores[i].1;
                self.scores.set(i, (user, score));
                proof {
                    lemma_alist_update(s0, i as int, score);
                }
                Some(prev)
            },
            None => {
                proof {
                    lemma_alist_map_absent(s0, user);
                }
                self.scores.push((user, score));
                proof {
                    lemma_alist_push(s0, user, score);
                }
                None
            },
        }
    }

    /// The entries arranged in descending score order.
    fn sorted_entries(&self) -> (r: Vec<(u64, i64)>)
        ensures
            is_ranking(self.scores@, r@),
    {
        let mut out: Vec<(u64, i64)> = Vec::new();
        let mut i: usize = 0;
        proof {
            assert(out@ =~= self.scores@.take(0));
        }
        while i < self.scores.len()
            invariant
                i <= self.scores@.len(),
                out@.to_multiset() == self.scores@.take(i as int).to_multiset(),
                sorted_desc(out@),
            decreases self.scores@.len() - i,
        {
            let e = self.scores[i];
            let ghost a = out@;
            let mut p: usize = 0;
            while p < out.len() && out[p].1 >= e.1
                invariant
                    p <= out@.len(),
                    out@ == a,
                    forall|q: int| 0 <= q < p ==> a[q].1 >= e.1,
                decreases out@.len() - p,
            {
                p = p + 1;
            }
            out.insert(p, e);
            proof {
                broadcast use vstd::seq_lib::group_to_multiset_ensures;
                broadcast use vstd::multiset::group_multiset_axioms;

                assert(a.insert(p as int, e) =~= a.take(p as int).push(e) + a.skip(p as int));
                assert(a.take(p as int) + a.skip(p as int) =~= a);
                vstd::seq_lib::lemma_multiset_commutative(a.take(p as int).push(e), a.skip(p as int));
                vstd::seq_lib::lemma_multiset_commutative(a.take(p as int), a.skip(p as int));
                assert(out@.to_multiset() =~= a.to_multiset().insert(e));
                assert(self.scores@.take(i + 1).drop_last() =~= self.scores@.take(i as int));
                assert(self.scores@.take(i + 1) =~= self.scores@.take(i as int).push(
                    self.scores@[i as int],
                ));
                assert(self.scores@.take(i + 1).to_multiset() =~= self.scores@.take(
                    i as int,
                ).to_multiset().insert(e));
                assert forall|x: int, y: int| 0 <= x < y < out@.len() implies out@[x].1
                    >= out@[y].1 by {
                    if y < p {
                        assert(out@[x] == a[x] && out@[y] == a[y]);
                    } else if x > p {
                        assert(out@[x] == a[x - 1] && out@[y] == a[y - 1]);
                    } else if x < p && y == p {
                        assert(out@[x] == a[x]);
                    } else if x < p && y > p {
                        assert(out@[x] == a[x] && out@[y] == a[y - 1]);
                    } else if x == p && y > p {
                        // the insertion point sits before every entry scored
                        // below `e`
                        assert(out@[y] == a[y - 1]);
                        if p < a.len() {
                            assert(a[p as int].1 < e.1 || sorted_desc(a));
                        }
                    }
                }
            }
            i = i + 1;
        }
        proof {
            assert(self.scores@.take(self.scores@.len() as int) =~= self.scores@);
        }
        out
    }

    /// The top ten: at most ten entries of some descending arrangement of
    /// the tally, each under its one-based rank.
    pub fn scores(&self) -> (r: Vec<(usize, u64, i64)>)
        requires
            self.wf(),
        ensures
            exists|sorted: Seq<(u64, i64)>|
                {
                    &&& #[trigger] is_ranking(self.scores@, sorted)
                    &&& r@.len() == (if sorted.len() > 10 {
                        10int
                    } else {
                        sorted.len() as int
                    })
                    &&& forall|i: int|
                        0 <= i < r@.len() ==> #[trigger] r@[i] == (
                        (i + 1) as usize,
                        sorted[i].0,
                        sorted[i].1,
                        )
                },
    {
        let sorted = self.sorted_entries();
        let ghost witness = sorted@;
        let limit = if sorted.len() > 10 {
            10
        } else {
            sorted.len()
        };
        let mut out: Vec<(usize, u64, i64)> = Vec::new();
        let mut i: usize = 0;
        while i < limit
            invariant
                i <= limit,
                limit <= witness.len(),
                limit == (if witness.len() > 10 {
                    10int
                } else {
                    witness.len() as int
                }),
                sorted@ == witness,
                out@.len() == i as int,
                forall|k: int|
                    0 <= k < i ==> #[trigger] out@[k] == ((k + 1) as usize, witness[k].0, witness[k].1),
            decreases limit - i,
        {
            let entry = sorted[i];
            out.push((i + 1, entry.0, entry.1));
            i = i + 1;
        }
        out
    }

    /// A user's rank, as it would stand in the full ranking: their one-based
    /// position in some descending arrangement of the tally, with their
    /// score; `None` for a user without a score.
    pub fn score(&self, user: u64) -> (r: Option<(usize, u64, i64)>)
        requires
            self.wf(),
        ensures
            r is Some <==> self.score_map().contains_key(user),
            r matches Some(entry) ==> exists|sorted: Seq<(u64, i64)>, k: int|
                #![trigger is_ranking(self.scores@, sorted), sorted[k]]
                {
                    &&& is_ranking(self.scores@, sorted)
                    &&& 0 <= k < sorted.len()
                    &&& sorted[k].0 == user
                    &&& forall|j: int| 0 <= j < k ==> (#[trigger] sorted[j]).0 != user
                    &&& entry == ((k + 1) as usize, user, sorted[k].1)
                },
    {
        let sorted = self.sorted_entries();
        let ghost witness = sorted@;
        let mut i: usize = 0;
        while i < sorted.len()
            invariant
                i <= witness.len(),
                sorted@ == witness,
                is_ranking(self.scores@, witness),
                unique_keys(self.scores@),
                forall|j: int| 0 <= j < i ==> (#[trigger] witness[j]).0 != user,
            decreases witness.len() - i,
        {
            if sorted[i].0 == user {
                proof {
                    broadcast use vstd::seq_lib::group_to_multiset_ensures;

                    assert(witness.contains(witness[i as int]));
                    assert(witness.to_multiset().count(witness[i as int]) > 0);
                    assert(self.scores@.to_multiset().count(witness[i as int]) > 0);
                    assert(self.scores@.contains(witness[i as int]));
                    let idx = choose|idx: int|
                        0 <= idx < self.scores@.len() && self.scores@[idx] == witness[i as int];
                    lemma_alist_map_index(self.scores@, idx);
                }
                return Some((i + 1, user, sorted[i].1));
            }
            i = i + 1;
        }
        proof {
            broadcast use vstd::seq_lib::group_to_multiset_ensures;

            if self.score_map().contains_key(user) {
                crate::assoc::lemma_alist_map_domain(self.scores@, user);
                let idx = choose|idx: int|
                    0 <= idx < self.scores@.len() && self.scores@[idx].0 == user;
                assert(self.scores@.contains(self.scores@[idx]));
                assert(self.scores@.to_multiset().count(self.scores@[idx]) > 0);
                assert(witness.to_multiset().count(self.scores@[idx]) > 0);
                assert(witness.contains(self.scores@[idx]));
            }
        }
        None
    }
}

} // verus!
