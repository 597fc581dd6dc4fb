//! A histogram of small non-negative integer outcomes.

use crate::weighted_choice::prefix_sum;
use vstd::prelude::*;

verus! {

/// Number of occurrences of key `k` in the counts `s`: zero past the end.
pub open spec fn count_of(s: Seq<u64>, k: int) -> int {
    if 0 <= k < s.len() {
        s[k] as int
    } else {
        0
    }
}

/// Sum of all counts.
pub open spec fn total_of(s: Seq<u64>) -> int {
    prefix_sum(s, s.len() as int)
}

/// Adding an entry leaves the sums of the earlier prefixes as they were.
pub proof fn lemma_prefix_sum_push_prefix(s: Seq<u64>, x: u64, n: int)
    requires
        0 <= n <= s.len(),
    ensures
        prefix_sum(s.push(x), n) == prefix_sum(s, n),
    decreases n,
{
    if n > 0 {
        lemma_prefix_sum_push_prefix(s, x, n - 1);
    }
}

/// Adding an entry adds it to the total.
pub proof fn lemma_prefix_sum_push(s: Seq<u64>, x: u64)
    ensures
        prefix_sum(s.push(x), s.len() + 1int) == prefix_sum(s, s.len() as int) + x,
{
    lemma_prefix_sum_push_prefix(s, x, s.len() as int);
    assert(s.push(x)[s.len() as int] == x);
}

/// Changing entry `k` changes every prefix sum that covers it by the same
/// amount.
pub proof fn lemma_prefix_sum_update(s: Seq<u64>, k: int, v: u64, n: int)
    requires
        0 <= k < s.len(),
        0 <= n <= s.len(),
    ensures
        prefix_sum(s.update(k, v), n) == prefix_sum(s, n) + if k < n {
            v - s[k]
        } else {
            0
        },
    decreases n,
{
    if n > 0 {
        lemma_prefix_sum_update(s, k, v, n - 1);
    }
}

/// No count exceeds the total.
pub proof fn lemma_count_le_total(s: Seq<u64>, k: int, n: int)
    requires
        0 <= k < n <= s.len(),
    ensures
        s[k] <= prefix_sum(s, n),
    decreases n,
{
    crate::weighted_choice::lemma_prefix_sum_monotone(s, 0, n - 1);
    if k < n - 1 {
        lemma_count_le_total(s, k, n - 1);
    }
}

/// Associative array of `u32 -> u64` laid out densely, for counting small
/// outcomes. Reading a key never fails (a missing key counts zero) and
/// counting a key never fails (the storage grows as needed).
#[derive(Debug)]
pub struct Counter {
    data: Vec<u64>,
    total: u64,
}

impl View for Counter {
    type V = Seq<u64>;

    /// The counts of keys `0..len`; later keys count zero.
    closed spec fn view(&self) -> Seq<u64> {
        self.data@
    }
}

impl Counter {
    pub closed spec fn wf(&self) -> bool {
        &&& self.total == total_of(self.data@)
        &&& self.data@.len() <= u32::MAX + 1
    }

    /// The invariant in terms of the view.
    pub proof fn lemma_wf(&self)
        requires
            self.wf(),
        ensures
            total_of(self@) <= u64::MAX,
            self@.len() <= u32::MAX + 1,
    {
    }

    /// An empty histogram.
    pub fn new() -> (r: Counter)
        ensures
            r.wf(),
            r@.len() == 0,
            total_of(r@) == 0,
    {
        Counter { data: Vec::new(), total: 0 }
    }

    /// How many times `key` was counted.
    pub fn get(&self, key: u32) -> (r: u64)
        requires
            self.wf(),
        ensures
            r == count_of(self@, key as int),
    {
        if (key as usize) < self.data.len() {
            self.data[key as usize]
        } else {
            0
        }
    }

    /// Counts one more occurrence of `key`.
    pub fn increment(&mut self, key: u32)
        requires
            old(self).wf(),
            total_of(old(self)@) < u64::MAX,
        ensures
            final(self).wf(),
            forall|k: int| #[trigger] count_of(final(self)@, k) == count_of(old(self)@, k) + if k
                == key {
                1int
            } else {
                0int
            },
            total_of(final(self)@) == total_of(old(self)@) + 1,
            final(self)@.len() == if old(self)@.len() > key {
                old(self)@.len() as int
            } else {
                key + 1
            },
    {
        let k = key as usize;
        while self.data.len() <= k
            invariant
                self.wf(),
                k == key as usize,
                total_of(self.data@) == total_of(old(self)@),
                total_of(self.data@) < u64::MAX,
                forall|j: int| #[trigger] count_of(self.data@, j) == count_of(old(self)@, j),
                self.data@.len() >= old(self)@.len(),
                old(self)@.len() <= k + 1 ==> self.data@.len() <= k + 1,
                old(self)@.len() > k ==> self.data@.len() == old(self)@.len(),
            decreases k + 1 - self.data@.len(),
        {
            proof {
                lemma_prefix_sum_push(self.data@, 0);
                assert forall|j: int| #[trigger] count_of(self.data@.push(0), j) == count_of(
                    self.data@,
                    j,
                ) by {
                    if j == self.data@.len() {
                        assert(self.data@.push(0)[j] == 0);
                    }
                }
            }
            self.data.push(0);
        }
        let v = self.data[k];
        proof {
            lemma_count_le_total(self.data@, k as int, self.data@.len() as int);
            lemma_prefix_sum_update(self.data@, k as int, (v + 1) as u64, self.data@.len() as int);
        }
        let ghost before = self.data@;
        self.data.set(k, v + 1);
        self.total = self.total + 1;
        proof {
            assert forall|j: int| #[trigger] count_of(self.data@, j) == count_of(before, j) + if j
                == key {
                1int
            } else {
                0int
            } by {
                if 0 <= j < before.len() && j != k {
                    assert(self.data@[j] == before[j]);
                }
            }
        }
    }

    /// Number of recorded outcomes.
    pub fn total_count(&self) -> (r: u64)
        requires
            self.wf(),
        ensures
            r == total_of(self@),
    {
        self.total
    }

    /// Whether nothing has been recorded.
    pub fn is_empty(&self) -> (r: bool)
        requires
            self.wf(),
        ensures
            r == (total_of(self@) == 0),
    {
        self.total == 0
    }

    /// Number of keys held densely: every key from it on counts zero.
    pub fn len(&self) -> (r: usize)
        requires
            self.wf(),
        ensures
            r == self@.len(),
            forall|k: int| k >= r ==> count_of(self@, k) == 0,
    {
        self.data.len()
    }

    /// The counts of keys `0..len()`.
    pub fn counts(&self) -> (r: &Vec<u64>)
        ensures
            r@ == self@,
    {
        &self.data
    }

    /// Forgets every recorded outcome.
    pub fn clear(&mut self)
        ensures
            final(self).wf(),
            final(self)@.len() == 0,
            total_of(final(self)@) == 0,
    {
        self.data.clear();
        self.total = 0;
    }
}

impl Default for Counter {
    fn default() -> (r: Counter)
        ensures
            r.wf(),
            r@.len() == 0,
            total_of(r@) == 0,
    {
        Counter::new()
    }
}

} // verus!
