//! The tally: the mapping from outcome code to occurrence count, exclusively
//! owned by the counting aggregator while a run is in progress.

use vstd::prelude::*;

verus! {

use crate::assoc::{
    assoc_map, has_key, lemma_assoc_map_dom, lemma_assoc_map_index, lemma_assoc_map_push,
    lemma_assoc_map_update, unique_keys,
};
use vstd::pervasive::VecAdditionalExecFns;

/// The sum of the counts of an association list of counters.
pub open spec fn sum_counts(s: Seq<(u16, i32)>) -> int
    decreases s.len(),
{
    if s.len() == 0 {
        0
    } else {
        sum_counts(s.drop_last()) + s.last().1
    }
}

/// Every entry of a list of positive counters counts no more than the sum.
proof fn lemma_count_le_sum(s: Seq<(u16, i32)>, i: int)
    requires
        forall|j: int| 0 <= j < s.len() ==> (#[trigger] s[j]).1 >= 1,
        0 <= i < s.len(),
    ensures
        s[i].1 <= sum_counts(s),
    decreases s.len(),
{
    if i == s.len() - 1 {
        lemma_sum_nonneg(s.drop_last());
    } else {
        assert(s.drop_last()[i] == s[i]);
        lemma_count_le_sum(s.drop_last(), i);
        assert(s.last().1 >= 1) by {
            assert((s[s.len() - 1]).1 >= 1);
        }
    }
}

/// A list of positive counters has a non-negative sum.
proof fn lemma_sum_nonneg(s: Seq<(u16, i32)>)
    requires
        forall|j: int| 0 <= j < s.len() ==> (#[trigger] s[j]).1 >= 1,
    ensures
        sum_counts(s) >= 0,
    decreases s.len(),
{
    if s.len() > 0 {
        assert(s.last().1 >= 1) by {
            assert((s[s.len() - 1]).1 >= 1);
        }
        assert(forall|j: int| 0 <= j < s.drop_last().len() ==> (#[trigger] s.drop_last()[j]).1
            >= 1) by {
            assert(forall|j: int|
                0 <= j < s.len() - 1 ==> s.drop_last()[j] == (#[trigger] s[j]));
        }
        lemma_sum_nonneg(s.drop_last());
    }
}

/// The tally of a run: each status code that was observed, with how often it
/// was observed, in insertion order.
#[derive(Debug, Clone)]
pub struct Tally {
    /// The recorded (code, count) entries, in insertion order.
    pub counts: Vec<(u16, i32)>,
}

impl Tally {
    /// The entries in insertion order.
    pub open spec fn pairs(self) -> Seq<(u16, i32)> {
        self.counts@
    }

    /// The mapping from status code to count.
    pub open spec fn as_map(self) -> Map<u16, i32> {
        assoc_map(self.counts@)
    }

    /// The number of outcomes recorded: the sum of all counts.
    pub open spec fn total(self) -> int {
        sum_counts(self.counts@)
    }

    /// The count recorded for a code; zero when the code was never recorded.
    pub open spec fn count_of(self, code: u16) -> int {
        if self.as_map().dom().contains(code) {
            self.as_map()[code] as int
        } else {
            0
        }
    }

    /// Well-formedness: codes are unique and every recorded count is
    /// positive.
    pub open spec fn wf(self) -> bool {
        &&& unique_keys(self.counts@)
        &&& forall|i: int| 0 <= i < self.counts@.len() ==> (#[trigger] self.counts@[i]).1 >= 1
    }

    /// An empty tally.
    pub fn new() -> (t: Tally)
        ensures
            t.wf(),
            t.pairs() == Seq::<(u16, i32)>::empty(),
            t.as_map() == Map::<u16, i32>::empty(),
            t.total() == 0,
    {
        Tally { counts: Vec::new() }
    }

    /// The number of distinct codes recorded.
    pub fn len(&self) -> (n: usize)
        ensures
            n == self.pairs().len(),
    {
        self.counts.len()
    }

    /// The entry at a position, in insertion order.
    pub fn entry_at(&self, i: usize) -> (e: (u16, i32))
        requires
            i < self.pairs().len(),
        ensures
            e == self.pairs()[i as int],
    {
        let pair = self.counts[i];
        pair
    }

    /// The recorded count for a code, zero if the code was never recorded.
    pub fn get(&self, code: u16) -> (r: i32)
        requires
            self.wf(),
        ensures
            r as int == self.count_of(code),
    {
        let n = self.counts.len();
        let mut i: usize = 0;
        while i < n
            invariant
                n == self.counts@.len(),
                i <= n,
                self.wf(),
                forall|j: int| 0 <= j < i ==> (#[trigger] self.counts@[j]).0 != code,
            decreases n - i,
        {
            let pair = self.counts[i];
            if pair.0 == code {
                proof {
                    lemma_assoc_map_index(self.counts@, i as int);
                }
                return pair.1;
            }
            i = i + 1;
        }
        proof {
            lemma_assoc_map_dom(self.counts@, code);
            assert(!has_key(self.counts@, code)) by {
                if has_key(self.counts@, code) {
                    let j = choose|j: int|
                        0 <= j < self.counts@.len() && (#[trigger] self.counts@[j]).0 == code;
                }
            }
        }
        0
    }

    /// Records one more outcome with the given code: the count for the code
    /// rises by one (from zero if it was never recorded), and nothing else
    /// changes.
    pub fn increment(&mut self, code: u16)
        requires
            old(self).wf(),
            old(self).total() < 0x7fff_ffff,
        ensures
            final(self).wf(),
            final(self).as_map() == old(self).as_map().insert(
                code,
                (old(self).count_of(code) + 1) as i32,
            ),
            final(self).total() == old(self).total() + 1,
            old(self).count_of(code) + 1 <= 0x7fff_ffff,
            final(self).count_of(code) == old(self).count_of(code) + 1,
    {
        let n = self.counts.len();
        let mut i: usize = 0;
        while i < n
            invariant
                *self == *old(self),
                n == self.counts@.len(),
                i <= n,
                self.wf(),
                old(self).total() < 0x7fff_ffff,
                forall|j: int| 0 <= j < i ==> (#[trigger] self.counts@[j]).0 != code,
            decreases n - i,
        {
            let pair = self.counts[i];
            if pair.0 == code {
                proof {
                    lemma_assoc_map_index(self.counts@, i as int);
                    lemma_count_le_sum(self.counts@, i as int);
                    lemma_assoc_map_update(self.counts@, i as int, code, (pair.1 + 1) as i32);
                    lemma_sum_update(self.counts@, i as int, (code, (pair.1 + 1) as i32));
                }
                self.counts.set(i, (code, pair.1 + 1));
                proof {
                    lemma_assoc_map_dom(old(self).counts@, code);
                    lemma_assoc_map_index(self.counts@, i as int);
                }
                return ;
            }
            i = i + 1;
        }
        proof {
            lemma_assoc_map_dom(self.counts@, code);
            assert(!has_key(self.counts@, code)) by {
                if has_key(self.counts@, code) {
                    let j = choose|j: int|
                        0 <= j < self.counts@.len() && (#[trigger] self.counts@[j]).0 == code;
                }
            }
            lemma_assoc_map_push(self.counts@, code, 1i32);
        }
        let ghost before = self.counts@;
        self.counts.push((code, 1));
        proof {
            assert(self.counts@.drop_last() =~= before);
            lemma_assoc_map_index(self.counts@, self.counts@.len() - 1);
        }
    }
}

/// Every code a well-formed tally maps is mapped to a positive count.
pub proof fn lemma_wf_map_positive(t: Tally)
    requires
        t.wf(),
    ensures
        forall|c: u16| t.as_map().dom().contains(c) ==> t.as_map()[c] >= 1,
{
    assert forall|c: u16| t.as_map().dom().contains(c) implies t.as_map()[c] >= 1 by {
        lemma_assoc_map_dom(t.counts@, c);
        let i = choose|i: int| 0 <= i < t.counts@.len() && (#[trigger] t.counts@[i]).0 == c;
        lemma_assoc_map_index(t.counts@, i);
    }
}

/// A run that recorded at least one outcome leaves a non-empty tally:
/// however a run is stopped, what was counted before the stop is kept.
pub proof fn lemma_positive_total_nonempty(t: Tally)
    requires
        t.wf(),
        t.total() > 0,
    ensures
        t.pairs().len() > 0,
{
    if t.pairs().len() == 0 {
        assert(sum_counts(t.pairs()) == 0);
    }
}

/// Updating one entry changes the sum by the difference at that entry.
proof fn lemma_sum_update(s: Seq<(u16, i32)>, i: int, p: (u16, i32))
    requires
        0 <= i < s.len(),
    ensures
        sum_counts(s.update(i, p)) == sum_counts(s) - s[i].1 + p.1,
    decreases s.len(),
{
    let t = s.update(i, p);
    if i == s.len() - 1 {
        assert(t.drop_last() =~= s.drop_last());
        assert(t.last() == p);
    } else {
        assert(t.drop_last() =~= s.drop_last().update(i, p));
        assert(t.last() == s.last());
        assert(s.drop_last()[i] == s[i]);
        lemma_sum_update(s.drop_last(), i, p);
    }
}

} // verus!
