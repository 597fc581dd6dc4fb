//! Weighted sampling over a small, fixed number of categories.
//!
//! A sampler keeps the running totals of its weights. A draw is a uniform
//! integer below the total weight; the chosen category is the first one whose
//! running total exceeds the draw, found with a fixed tree of comparisons.

use crate::rng;
use vstd::prelude::*;
use vstd::set_lib::set_int_range;

verus! {

/// Sum of the first `n` weights.
pub open spec fn prefix_sum(w: Seq<u64>, n: int) -> int
    decreases n,
{
    if n <= 0 || w.len() == 0 {
        0
    } else if n > w.len() {
        prefix_sum(w, w.len() as int)
    } else {
        prefix_sum(w, n - 1) + w[n - 1]
    }
}

/// The first position at or after `i` whose running total exceeds the draw
/// `u`, or the length of `c` if there is none.
pub open spec fn first_above(c: Seq<u64>, u: int, i: int) -> int
    decreases c.len() - i,
{
    if i >= c.len() {
        c.len() as int
    } else if u < c[i] {
        i
    } else {
        first_above(c, u, i + 1)
    }
}

/// The category that the draw `u` selects under running totals `c`.
pub open spec fn chosen(c: Seq<u64>, u: int) -> int {
    first_above(c, u, 0)
}

/// Running totals never decrease.
pub open spec fn nondecreasing(c: Seq<u64>) -> bool {
    forall|i: int, j: int| 0 <= i <= j < c.len() ==> c[i] <= c[j]
}

pub proof fn lemma_prefix_sum_monotone(w: Seq<u64>, i: int, j: int)
    requires
        0 <= i <= j <= w.len(),
    ensures
        prefix_sum(w, i) <= prefix_sum(w, j),
    decreases j - i,
{
    if i < j {
        lemma_prefix_sum_monotone(w, i, j - 1);
    }
}

/// Where the running totals are nondecreasing, `u` selects `i` exactly when
/// it lies between the total before `i` and the total through `i`.
pub proof fn lemma_chosen_exact(c: Seq<u64>, u: int, i: int)
    requires
        nondecreasing(c),
        0 <= i < c.len(),
    ensures
        (chosen(c, u) == i) <==> ((i == 0 || c[i - 1] <= u) && u < c[i]),
{
    if (i == 0 || c[i - 1] <= u) && u < c[i] {
        lemma_first_above_reaches(c, u, 0, i);
    }
    if chosen(c, u) == i {
        lemma_first_above_is_first(c, u, 0);
    }
}

proof fn lemma_first_above_reaches(c: Seq<u64>, u: int, j: int, i: int)
    requires
        nondecreasing(c),
        0 <= j <= i < c.len(),
        i == 0 || c[i - 1] <= u,
        u < c[i],
    ensures
        first_above(c, u, j) == i,
    decreases i - j,
{
    if j < i {
        assert(c[j] <= c[i - 1]);
        lemma_first_above_reaches(c, u, j + 1, i);
    }
}

proof fn lemma_first_above_is_first(c: Seq<u64>, u: int, j: int)
    requires
        0 <= j <= c.len(),
    ensures
        j <= first_above(c, u, j) <= c.len(),
        first_above(c, u, j) < c.len() ==> u < c[first_above(c, u, j)],
        forall|k: int| j <= k < first_above(c, u, j) ==> c[k] <= u,
    decreases c.len() - j,
{
    if j < c.len() && u >= c[j] {
        lemma_first_above_is_first(c, u, j + 1);
    }
}

/// Running totals built from weights never decrease.
pub proof fn lemma_cumulative_nondecreasing(w: Seq<u64>, c: Seq<u64>)
    requires
        c.len() == w.len(),
        forall|i: int| 0 <= i < c.len() ==> c[i] == prefix_sum(w, i + 1),
    ensures
        nondecreasing(c),
{
    assert forall|i: int, j: int| 0 <= i <= j < c.len() implies c[i] <= c[j] by {
        lemma_prefix_sum_monotone(w, i + 1, j + 1);
    }
}

/// A draw below the total weight selects a category of positive weight.
pub proof fn lemma_chosen_positive(w: Seq<u64>, c: Seq<u64>, u: int)
    requires
        c.len() == w.len(),
        c.len() > 0,
        forall|k: int| 0 <= k < c.len() ==> c[k] == prefix_sum(w, k + 1),
        0 <= u < c[c.len() - 1],
    ensures
        0 <= chosen(c, u) < w.len(),
        w[chosen(c, u)] > 0,
{
    lemma_cumulative_nondecreasing(w, c);
    lemma_first_above_is_first(c, u, 0);
    let i = chosen(c, u);
    if i >= c.len() {
        assert(c[c.len() - 1] <= u);
    }
    lemma_chosen_exact(c, u, i);
    if i > 0 {
        assert(c[i] == c[i - 1] + w[i]);
    } else {
        reveal_with_fuel(prefix_sum, 2);
        assert(c[0] == w[0]);
    }
}

/// A uniform draw below the total weight selects each category with
/// probability proportional to its weight: of the `prefix_sum(w, w.len())`
/// equally likely draws, exactly `w[i]` select category `i`.
pub proof fn lemma_draws_proportional(w: Seq<u64>, c: Seq<u64>, i: int)
    requires
        c.len() == w.len(),
        forall|k: int| 0 <= k < c.len() ==> c[k] == prefix_sum(w, k + 1),
        0 <= i < w.len(),
    ensures
        Set::new(|u: int| 0 <= u < prefix_sum(w, w.len() as int) && chosen(c, u) == i).len()
            == w[i],
{
    lemma_cumulative_nondecreasing(w, c);
    let lo = prefix_sum(w, i);
    let hi = prefix_sum(w, i + 1);
    lemma_prefix_sum_monotone(w, i + 1, w.len() as int);
    lemma_prefix_sum_monotone(w, 0, i);
    let s = Set::new(|u: int| 0 <= u < prefix_sum(w, w.len() as int) && chosen(c, u) == i);
    assert forall|u: int| s.contains(u) <==> set_int_range(lo, hi).contains(u) by {
        lemma_chosen_exact(c, u, i);
        if i > 0 {
            assert(c[i - 1] == lo);
        }
    }
    assert(s =~= set_int_range(lo, hi));
    vstd::set_lib::lemma_int_range(lo, hi);
}

/// Weighted sampler over four categories.
#[derive(Copy, Clone, Debug)]
pub struct WeightedIndex4 {
    values: [u64; 4],
}

/// Weighted sampler over six categories.
#[derive(Copy, Clone, Debug)]
pub struct WeightedIndex6 {
    values: [u64; 6],
}

impl WeightedIndex4 {
    /// The running totals of the weights the sampler was built from.
    pub closed spec fn spec_cumulative(self) -> Seq<u64> {
        self.values@
    }

    /// Total weight.
    pub open spec fn spec_total(self) -> int {
        self.spec_cumulative()[3] as int
    }

    pub open spec fn wf(self) -> bool {
        &&& self.spec_cumulative().len() == 4
        &&& nondecreasing(self.spec_cumulative())
        &&& self.spec_total() > 0
    }

    /// Builds a sampler from the weights; there is none when all of them are
    /// zero.
    pub fn new(weights: [u64; 4]) -> (r: Option<Self>)
        requires
            prefix_sum(weights@, 4) <= u64::MAX,
        ensures
            r.is_none() <==> prefix_sum(weights@, 4) == 0,
            r matches Some(s) ==> s.wf() && forall|i: int|
                0 <= i < 4 ==> s.spec_cumulative()[i] == prefix_sum(weights@, i + 1),
    {
        reveal_with_fuel(prefix_sum, 5);
        let c0 = weights[0];
        let c1 = c0 + weights[1];
        let c2 = c1 + weights[2];
        let c3 = c2 + weights[3];
        if c3 == 0 {
            return None;
        }
        let s = WeightedIndex4 { values: [c0, c1, c2, c3] };
        assert(s.spec_cumulative() =~= seq![c0, c1, c2, c3]);
        Some(s)
    }

    /// Total weight.
    pub fn total(&self) -> (r: u64)
        requires
            self.wf(),
        ensures
            r == self.spec_total(),
    {
        self.values[3]
    }

    /// The category that the draw `u` selects.
    pub fn pick(&self, u: u64) -> (r: usize)
        requires
            self.wf(),
            u < self.spec_total(),
        ensures
            r < 4,
            r == chosen(self.spec_cumulative(), u as int),
    {
        let c = self.values;
        let r: usize = if u >= c[1] {
            if u >= c[2] {
                3
            } else {
                2
            }
        } else {
            if u >= c[0] {
                1
            } else {
                0
            }
        };
        proof {
            lemma_chosen_exact(self.spec_cumulative(), u as int, r as int);
        }
        r
    }

    /// Draws a category at random, each with probability proportional to
    /// its weight.
    pub fn sample(&self, rng: &mut rand::rngs::SmallRng) -> (r: usize)
        requires
            self.wf(),
        ensures
            r < 4,
            exists|u: int| 0 <= u < self.spec_total() && r == chosen(self.spec_cumulative(), u),
    {
        let u = rng::below(rng, self.total());
        self.pick(u)
    }
}

impl WeightedIndex6 {
    /// The running totals of the weights the sampler was built from.
    pub closed spec fn spec_cumulative(self) -> Seq<u64> {
        self.values@
    }

    /// Total weight.
    pub open spec fn spec_total(self) -> int {
        self.spec_cumulative()[5] as int
    }

    pub open spec fn wf(self) -> bool {
        &&& self.spec_cumulative().len() == 6
        &&& nondecreasing(self.spec_cumulative())
        &&& self.spec_total() > 0
    }

    /// Builds a sampler from the weights; there is none when all of them are
    /// zero.
    pub fn new(weights: [u64; 6]) -> (r: Option<Self>)
        requires
            prefix_sum(weights@, 6) <= u64::MAX,
        ensures
            r.is_none() <==> prefix_sum(weights@, 6) == 0,
            r matches Some(s) ==> s.wf() && forall|i: int|
                0 <= i < 6 ==> s.spec_cumulative()[i] == prefix_sum(weights@, i + 1),
    {
        reveal_with_fuel(prefix_sum, 7);
        let c0 = weights[0];
        let c1 = c0 + weights[1];
        let c2 = c1 + weights[2];
        let c3 = c2 + weights[3];
        let c4 = c3 + weights[4];
        let c5 = c4 + weights[5];
        if c5 == 0 {
            return None;
        }
        let s = WeightedIndex6 { values: [c0, c1, c2, c3, c4, c5] };
        assert(s.spec_cumulative() =~= seq![c0, c1, c2, c3, c4, c5]);
        Some(s)
    }

    /// Total weight.
    pub fn total(&self) -> (r: u64)
        requires
            self.wf(),
        ensures
            r == self.spec_total(),
    {
        self.values[5]
    }

    /// The category that the draw `u` selects.
    pub fn pick(&self, u: u64) -> (r: usize)
        requires
            self.wf(),
            u < self.spec_total(),
        ensures
            r < 6,
            r == chosen(self.spec_cumulative(), u as int),
    {
        let c = self.values;
        let r: usize = if u >= c[2] {
            if u >= c[3] {
                if u >= c[4] {
                    5
                } else {
                    4
                }
            } else {
                3
            }
        } else {
            if u >= c[0] {
                if u >= c[1] {
                    2
                } else {
                    1
                }
            } else {
                0
            }
        };
        proof {
            lemma_chosen_exact(self.spec_cumulative(), u as int, r as int);
        }
        r
    }

    /// Draws a category at random, each with probability proportional to
    /// its weight.
    pub fn sample(&self, rng: &mut rand::rngs::SmallRng) -> (r: usize)
        requires
            self.wf(),
        ensures
            r < 6,
            exists|u: int| 0 <= u < self.spec_total() && r == chosen(self.spec_cumulative(), u),
    {
        let u = rng::below(rng, self.total());
        self.pick(u)
    }
}

} // verus!
