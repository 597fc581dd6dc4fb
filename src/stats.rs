//! Percentile queries over a histogram of outcomes.
//!
//! A percentile is asked for as an exact fraction `num / den` of the
//! recorded outcomes. The answer is the smallest key at which the share of
//! outcomes up to and including that key exceeds the fraction; when no key
//! does (the fraction is the whole), it is the largest key that was counted.

use crate::counter::{Counter, total_of};
use crate::weighted_choice::{lemma_prefix_sum_monotone, prefix_sum};
use vstd::prelude::*;

verus! {

/// A fraction between zero and one.
#[derive(Copy, Clone, Debug)]
pub struct Fraction {
    pub num: u32,
    pub den: u32,
}

impl Fraction {
    pub open spec fn wf(self) -> bool {
        self.den > 0 && self.num <= self.den
    }

    /// `self` is at most `other`.
    pub open spec fn le(self, other: Fraction) -> bool {
        self.num * other.den <= other.num * self.den
    }
}

/// The outcomes up to and including key `i` are more than the fraction `q`
/// of all outcomes.
pub open spec fn exceeds(s: Seq<u64>, i: int, q: Fraction) -> bool {
    prefix_sum(s, i + 1) * q.den > q.num * total_of(s)
}

/// The first key at or after `i` at which the fraction `q` is exceeded, or
/// the number of keys if there is none.
pub open spec fn first_exceeding(s: Seq<u64>, q: Fraction, i: int) -> int
    decreases s.len() - i,
{
    if i >= s.len() {
        s.len() as int
    } else if exceeds(s, i, q) {
        i
    } else {
        first_exceeding(s, q, i + 1)
    }
}

/// The largest key below `n` with a nonzero count, or zero if there is none.
pub open spec fn last_nonzero(s: Seq<u64>, n: int) -> int
    decreases n,
{
    if n <= 0 {
        0
    } else if s[n - 1] > 0 {
        n - 1
    } else {
        last_nonzero(s, n - 1)
    }
}

/// The `q` percentile of the counts `s`.
pub open spec fn percentile_of(s: Seq<u64>, q: Fraction) -> int {
    if total_of(s) == 0 {
        0
    } else if first_exceeding(s, q, 0) < s.len() {
        first_exceeding(s, q, 0)
    } else {
        last_nonzero(s, s.len() as int)
    }
}

/// The fractions are in non-decreasing order.
pub open spec fn sorted_fractions(q: Seq<Fraction>) -> bool {
    forall|i: int, j: int| 0 <= i <= j < q.len() ==> q[i].le(q[j])
}

proof fn lemma_first_exceeding_spec(s: Seq<u64>, q: Fraction, i: int)
    requires
        0 <= i <= s.len(),
    ensures
        i <= first_exceeding(s, q, i) <= s.len(),
        first_exceeding(s, q, i) < s.len() ==> exceeds(s, first_exceeding(s, q, i), q),
        forall|k: int| i <= k < first_exceeding(s, q, i) ==> !exceeds(s, k, q),
    decreases s.len() - i,
{
    if i < s.len() && !exceeds(s, i, q) {
        lemma_first_exceeding_spec(s, q, i + 1);
    }
}

proof fn lemma_first_exceeding_at(s: Seq<u64>, q: Fraction, i: int, j: int)
    requires
        0 <= i <= j <= s.len(),
        forall|k: int| i <= k < j ==> !exceeds(s, k, q),
        j == s.len() || exceeds(s, j, q),
    ensures
        first_exceeding(s, q, i) == j,
    decreases j - i,
{
    if i < j {
        lemma_first_exceeding_at(s, q, i + 1, j);
    }
}

proof fn lemma_last_nonzero_spec(s: Seq<u64>, n: int)
    requires
        0 <= n <= s.len(),
    ensures
        0 <= last_nonzero(s, n) < n || last_nonzero(s, n) == 0,
        forall|k: int| last_nonzero(s, n) < k < n ==> s[k] == 0,
        prefix_sum(s, n) > 0 ==> last_nonzero(s, n) < n && s[last_nonzero(s, n)] > 0,
        prefix_sum(s, n) == prefix_sum(s, last_nonzero(s, n) + 1) || prefix_sum(s, n) == 0,
    decreases n,
{
    if n > 0 && s[n - 1] == 0 {
        lemma_last_nonzero_spec(s, n - 1);
    }
}

/// A fraction exceeded at a key is exceeded by every smaller fraction there.
proof fn lemma_exceeds_smaller(s: Seq<u64>, i: int, q1: Fraction, q2: Fraction)
    requires
        q1.wf(),
        q2.wf(),
        q1.le(q2),
        exceeds(s, i, q2),
        total_of(s) >= 0,
    ensures
        exceeds(s, i, q1),
{
    let c = prefix_sum(s, i + 1);
    let t = total_of(s);
    let (n1, d1, n2, d2) = (q1.num as int, q1.den as int, q2.num as int, q2.den as int);
    assert(c * d1 > n1 * t) by (nonlinear_arith)
        requires
            c * d2 > n2 * t,
            n1 * d2 <= n2 * d1,
            d1 > 0,
            d2 > 0,
            t >= 0,
            n1 >= 0,
    ;
}

/// Once exceeded, a fraction stays exceeded at every later key.
proof fn lemma_exceeds_later(s: Seq<u64>, i: int, j: int, q: Fraction)
    requires
        q.wf(),
        0 <= i <= j < s.len(),
        exceeds(s, i, q),
    ensures
        exceeds(s, j, q),
{
    lemma_prefix_sum_monotone(s, i + 1, j + 1);
    let (a, b) = (prefix_sum(s, i + 1), prefix_sum(s, j + 1));
    assert(a * q.den <= b * q.den) by (nonlinear_arith)
        requires
            a <= b,
            q.den >= 0,
    ;
}

/// The percentile never falls as the fraction grows.
pub proof fn lemma_percentile_monotone(s: Seq<u64>, q1: Fraction, q2: Fraction)
    requires
        q1.wf(),
        q2.wf(),
        q1.le(q2),
    ensures
        percentile_of(s, q1) <= percentile_of(s, q2),
{
    lemma_prefix_sum_monotone(s, 0, s.len() as int);
    if total_of(s) > 0 {
        let f1 = first_exceeding(s, q1, 0);
        let f2 = first_exceeding(s, q2, 0);
        let n = s.len() as int;
        lemma_first_exceeding_spec(s, q1, 0);
        lemma_first_exceeding_spec(s, q2, 0);
        lemma_last_nonzero_spec(s, n);
        if f2 < n {
            lemma_exceeds_smaller(s, f2, q1, q2);
        } else if f1 < n {
            let j = last_nonzero(s, n);
            if f1 > j {
                lemma_prefix_sum_monotone(s, j + 1, f1 + 1);
                lemma_prefix_sum_monotone(s, f1 + 1, n);
                assert(prefix_sum(s, j + 1) == prefix_sum(s, f1 + 1));
                assert(exceeds(s, j, q1));
            }
        }
    }
}

/// At the fraction zero, the percentile is the smallest key that was
/// counted.
pub proof fn lemma_percentile_zero(s: Seq<u64>, q: Fraction)
    requires
        q.wf(),
        q.num == 0,
        total_of(s) > 0,
    ensures
        0 <= percentile_of(s, q) < s.len(),
        s[percentile_of(s, q)] > 0,
        forall|k: int| 0 <= k < percentile_of(s, q) ==> s[k] == 0,
{
    let n = s.len() as int;
    lemma_first_exceeding_spec(s, q, 0);
    let f = first_exceeding(s, q, 0);
    lemma_last_nonzero_spec(s, n);
    let j = last_nonzero(s, n);
    lemma_prefix_sum_monotone(s, j + 1, n);
    assert(prefix_sum(s, j + 1) == prefix_sum(s, n));
    let c = prefix_sum(s, j + 1);
    assert(c * q.den > 0) by (nonlinear_arith)
        requires
            c > 0,
            q.den > 0,
    ;
    assert(exceeds(s, j, q));
    assert(f <= j);
    assert forall|k: int| 0 <= k < f implies s[k] == 0 by {
        lemma_not_exceeds_zero(s, k, q);
        lemma_prefix_sum_monotone(s, 0, k);
    }
    lemma_not_exceeds_zero(s, f, q);
    if f > 0 {
        lemma_not_exceeds_zero(s, f - 1, q);
    }
}

/// At the fraction zero, a key is not exceeded only while nothing up to it
/// was counted.
proof fn lemma_not_exceeds_zero(s: Seq<u64>, k: int, q: Fraction)
    requires
        q.wf(),
        q.num == 0,
        0 <= k < s.len(),
    ensures
        !exceeds(s, k, q) <==> prefix_sum(s, k + 1) == 0,
        prefix_sum(s, k + 1) == prefix_sum(s, k) + s[k],
        prefix_sum(s, k) >= 0,
{
    lemma_prefix_sum_monotone(s, 0, k);
    let c = prefix_sum(s, k + 1);
    assert(c >= 0);
    assert(c * q.den > 0 <==> c > 0) by (nonlinear_arith)
        requires
            c >= 0,
            q.den > 0,
    ;
}

/// At the whole (any fraction equal to one), the percentile is the largest
/// key that was counted.
pub proof fn lemma_percentile_whole(s: Seq<u64>, q: Fraction)
    requires
        q.wf(),
        q.num == q.den,
        total_of(s) > 0,
    ensures
        0 <= percentile_of(s, q) < s.len(),
        s[percentile_of(s, q)] > 0,
        forall|k: int| percentile_of(s, q) < k < s.len() ==> s[k] == 0,
{
    let n = s.len() as int;
    lemma_first_exceeding_spec(s, q, 0);
    let f = first_exceeding(s, q, 0);
    if f < n {
        lemma_prefix_sum_monotone(s, f + 1, n);
        assert(false) by (nonlinear_arith)
            requires
                prefix_sum(s, f + 1) * q.den > q.num * total_of(s),
                prefix_sum(s, f + 1) <= total_of(s),
                q.num == q.den,
                q.den > 0,
        ;
    }
    lemma_last_nonzero_spec(s, n);
}

/// With nothing recorded, every percentile is zero.
pub proof fn lemma_percentile_empty(s: Seq<u64>, q: Fraction)
    requires
        total_of(s) == 0,
    ensures
        percentile_of(s, q) == 0,
{
}

/// The `pct` percentile of the recorded outcomes.
pub fn percentile(data: &Counter, pct: Fraction) -> (r: u32)
    requires
        data.wf(),
        pct.wf(),
    ensures
        r == percentile_of(data@, pct),
{
    let mut pcts: Vec<Fraction> = Vec::new();
    pcts.push(pct);
    assert(pcts@[0] == pct);
    let results = percentiles(data, pcts.as_slice());
    assert(results@[0] == percentile_of(data@, pcts@[0]));
    results[0]
}

/// Several percentiles at once, in one pass over the keys; the fractions
/// must be in non-decreasing order. Entry `i` of the result is the
/// `pcts[i]` percentile.
pub fn percentiles(data: &Counter, pcts: &[Fraction]) -> (r: Vec<u32>)
    requires
        data.wf(),
        forall|i: int| 0 <= i < pcts@.len() ==> (#[trigger] pcts@[i]).wf(),
        sorted_fractions(pcts@),
    ensures
        r@.len() == pcts@.len(),
        forall|i: int| 0 <= i < pcts@.len() ==> r@[i] == percentile_of(data@, #[trigger] pcts@[i]),
{
    let ghost s = data@;
    proof {
        data.lemma_wf();
    }
    assert(pcts@.len() == pcts.len());
    let total = data.total_count();
    let counts = data.counts();
    let n = counts.len();
    let mut results: Vec<u32> = Vec::new();
    let mut i: usize = 0;
    while i < pcts.len()
        invariant
            i <= pcts@.len(),
            results@.len() == i,
            forall|k: int| 0 <= k < i ==> results@[k] == 0,
        decreases pcts@.len() - i,
    {
        results.push(0);
        i = i + 1;
    }
    if total == 0 {
        return results;
    }
    let mut accum: u64 = 0;
    let mut out: usize = 0;
    let mut value: usize = 0;
    while value < n
        invariant
            s == data@,
            counts@ == s,
            n == s.len(),
            n <= u32::MAX + 1,
            total == total_of(s),
            total > 0,
            forall|k: int| 0 <= k < pcts@.len() ==> (#[trigger] pcts@[k]).wf(),
            sorted_fractions(pcts@),
            results@.len() == pcts@.len(),
            value <= n,
            out <= pcts@.len(),
            accum == prefix_sum(s, value as int),
            forall|k: int| 0 <= k < out ==> results@[k] == percentile_of(s, #[trigger] pcts@[k]),
            forall|k: int, j: int|
                out <= k < pcts@.len() && 0 <= j < value ==> !(#[trigger] exceeds(s, j, pcts@[k])),
        decreases n - value,
    {
        proof {
            lemma_prefix_sum_monotone(s, value + 1, n as int);
        }
        accum = accum + counts[value];
        assert(accum <= total);
        let mut hit = out < pcts.len() && above(accum, pcts[out], total);
        while hit
            invariant
                s == data@,
                n == s.len(),
                total == total_of(s),
                total > 0,
                forall|k: int| 0 <= k < pcts@.len() ==> (#[trigger] pcts@[k]).wf(),
                sorted_fractions(pcts@),
                results@.len() == pcts@.len(),
                value < n,
                n <= u32::MAX + 1,
                out <= pcts@.len(),
                pcts@.len() <= usize::MAX,
                accum == prefix_sum(s, value + 1),
                accum <= total,
                hit == (out < pcts@.len() && accum * pcts@[out as int].den > pcts@[out as int].num
                    * total),
                forall|k: int| 0 <= k < out ==> results@[k] == percentile_of(s, #[trigger] pcts@[k]),
                forall|k: int, j: int|
                    out <= k < pcts@.len() && 0 <= j < value ==> !(#[trigger] exceeds(s, j, pcts@[k])),
            decreases pcts@.len() - out,
        {
            proof {
                let q = pcts@[out as int];
                assert(exceeds(s, value as int, q)) by (nonlinear_arith)
                    requires
                        accum * q.den > q.num * total,
                        accum == prefix_sum(s, value + 1),
                        total == total_of(s),
                ;
                lemma_first_exceeding_at(s, q, 0, value as int);
            }
            results.set(out, value as u32);
            out = out + 1;
            hit = out < pcts.len() && above(accum, pcts[out], total);
        }
        proof {
            assert forall|k: int, j: int|
                out <= k < pcts@.len() && 0 <= j < value + 1 implies !(#[trigger] exceeds(s, j, pcts@[k])) by {
                if j == value {
                    let q = pcts@[out as int];
                    assert(!exceeds(s, value as int, q)) by (nonlinear_arith)
                        requires
                            accum * q.den <= q.num * total,
                            accum == prefix_sum(s, value + 1),
                            total == total_of(s),
                    ;
                    if exceeds(s, j, pcts@[k]) {
                        lemma_exceeds_smaller(s, j, q, pcts@[k]);
                    }
                }
            }
        }
        value = value + 1;
    }
    if out < pcts.len() {
        let last = last_counted(counts, total);
        let mut k: usize = out;
        while k < pcts.len()
            invariant
                s == data@,
                n == s.len(),
                total == total_of(s),
                total > 0,
                results@.len() == pcts@.len(),
                out <= k <= pcts@.len(),
                last == last_nonzero(s, n as int),
                forall|m: int| 0 <= m < out ==> results@[m] == percentile_of(s, #[trigger] pcts@[m]),
                forall|m: int| out <= m < k ==> results@[m] == percentile_of(s, #[trigger] pcts@[m]),
                forall|m: int, j: int|
                    out <= m < pcts@.len() && 0 <= j < n ==> !(#[trigger] exceeds(s, j, pcts@[m])),
            decreases pcts@.len() - k,
        {
            proof {
                let q = pcts@[k as int];
                lemma_first_exceeding_at(s, q, 0, n as int);
            }
            results.set(k, last);
            k = k + 1;
        }
    }
    results
}

/// The outcomes counted so far, `accum` of `total`, are more than the
/// fraction `q`.
fn above(accum: u64, q: Fraction, total: u64) -> (r: bool)
    ensures
        r == (accum * q.den > q.num * total),
{
    let a = accum as u128;
    let t = total as u128;
    let d = q.den as u128;
    let m = q.num as u128;
    assert(a * d <= 0xffff_ffff_ffff_ffff * 0xffff_ffff) by (nonlinear_arith)
        requires
            a <= 0xffff_ffff_ffff_ffff,
            d <= 0xffff_ffff,
    ;
    assert(m * t <= 0xffff_ffff * 0xffff_ffff_ffff_ffff) by (nonlinear_arith)
        requires
            t <= 0xffff_ffff_ffff_ffff,
            m <= 0xffff_ffff,
    ;
    a * d > m * t
}

/// The largest key with a nonzero count; there is one, since the total is
/// positive.
fn last_counted(counts: &Vec<u64>, total: u64) -> (r: u32)
    requires
        total == total_of(counts@),
        total > 0,
        counts@.len() <= u32::MAX + 1,
    ensures
        r == last_nonzero(counts@, counts@.len() as int),
{
    let ghost s = counts@;
    let mut j: usize = counts.len();
    while j > 0 && counts[j - 1] == 0
        invariant
            s == counts@,
            j <= s.len(),
            last_nonzero(s, j as int) == last_nonzero(s, s.len() as int),
        decreases j,
    {
        j = j - 1;
    }
    proof {
        lemma_last_nonzero_spec(s, s.len() as int);
        if j == 0 {
            assert(last_nonzero(s, 0) == 0);
        }
    }
    if j == 0 {
        0
    } else {
        (j - 1) as u32
    }
}

} // verus!
