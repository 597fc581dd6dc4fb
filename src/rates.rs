//! The probability model of the pool's tiers.
//!
//! Rates are kept as exact integers. One percentage point is `UNIT` base
//! units, so that the fixed split of the lower tiers (55/91 and 36/91 of the
//! residual) and the pity step of half a point are whole numbers. The
//! per-pity weights are then scaled by `scale(b)`, the product of the top and
//! lower masses, so that moving mass between the tiers stays exact.

use crate::banner::Banner;
use vstd::prelude::*;

verus! {

/// Base units in one percentage point.
pub const UNIT: u64 = 182;

/// Base units in the whole pool (one hundred percentage points).
pub const WHOLE: u64 = 18200;

/// Base units that each pity step moves into the top tiers (half a point).
pub const PITY_STEP: u64 = 91;

/// The pity step from which a top-tier draw is guaranteed.
pub const MAX_PITY: u32 = 25;

/// Pity-independent split of the pool across the tiers, in base units.
pub open spec fn base_units(b: Banner) -> Seq<int> {
    let (f, v) = (b.starting_rates.0 as int, b.starting_rates.1 as int);
    if b.fourstar_focus.is_some() {
        seq![546, 546, 546, 546, 9464, 6552]
    } else if f == 6 && v == 0 {
        seq![1092, 0, 0, 546, 10374, 6188]
    } else {
        seq![182 * f, 182 * v, 0, 546, 110 * (97 - f - v), 72 * (97 - f - v)]
    }
}

/// Mass of the two top tiers, in base units.
pub open spec fn top_units(b: Banner) -> int {
    base_units(b)[0] + base_units(b)[1]
}

/// Mass of the four lower tiers, in base units.
pub open spec fn lower_units(b: Banner) -> int {
    WHOLE - top_units(b)
}

/// The factor by which per-pity weights are scaled beyond base units.
pub open spec fn scale(b: Banner) -> int {
    top_units(b) * lower_units(b)
}

/// Weight of one percentage point in the results of `bases` and
/// `probabilities`.
pub open spec fn percent(b: Banner) -> int {
    UNIT * scale(b)
}

/// Base units moved into the top tiers after `p` pity steps: half a point a
/// step, and the whole lower mass from `MAX_PITY` on.
pub open spec fn pity_units(b: Banner, p: int) -> int {
    if p >= MAX_PITY {
        lower_units(b)
    } else {
        PITY_STEP * p
    }
}

/// Weights of the tiers with no pity, in units of `1 / percent(b)` of a
/// percentage point.
pub open spec fn base_weights(b: Banner) -> Seq<int> {
    Seq::new(6, |i: int| base_units(b)[i] * scale(b))
}

/// Weights of the tiers after `p` pity steps, in the units of
/// `base_weights`. The top tiers gain the pity mass in proportion to their
/// base weights; the lower tiers lose it in proportion to theirs.
pub open spec fn pity_weights(b: Banner, p: int) -> Seq<int> {
    Seq::new(
        6,
        |i: int|
            if i < 2 {
                base_units(b)[i] * scale(b) + pity_units(b, p) * base_units(b)[i] * lower_units(b)
            } else {
                base_units(b)[i] * scale(b) - pity_units(b, p) * base_units(b)[i] * top_units(b)
            },
    )
}

/// The tier weights after `p` pity steps as machine integers.
pub open spec fn tier_row(b: Banner, p: int) -> Seq<u64> {
    Seq::new(6, |i: int| pity_weights(b, p)[i] as u64)
}

/// The tier of the designated bonus item has weight only when the banner
/// designates one.
pub proof fn lemma_bonus_tier_weight(b: Banner, p: int)
    requires
        b.wf(),
        b.fourstar_focus.is_none(),
    ensures
        pity_weights(b, p)[2] == 0,
{
    let bu = base_units(b);
    assert(bu[2] == 0);
    let (s, q, t) = (scale(b), pity_units(b, p), top_units(b));
    assert(bu[2] * s - q * bu[2] * t == 0) by (nonlinear_arith)
        requires
            bu[2] == 0,
    ;
}

/// Combined weight of the two top tiers in a row of weights.
pub open spec fn top_mass(w: Seq<int>) -> int {
    w[0] + w[1]
}

proof fn lemma_base_facts(b: Banner)
    requires
        b.wf(),
    ensures
        base_units(b).len() == 6,
        forall|i: int| 0 <= i < 6 ==> 0 <= #[trigger] base_units(b)[i] <= WHOLE,
        182 <= top_units(b) <= 16016,
        2184 <= lower_units(b) <= 18018,
        lower_units(b) == base_units(b)[2] + base_units(b)[3] + base_units(b)[4] + base_units(
            b,
        )[5],
        0 < scale(b) <= 18200 * 18200,
{
    let t = top_units(b);
    let l = lower_units(b);
    assert(0 < t * l <= 18200 * 18200) by (nonlinear_arith)
        requires
            182 <= t <= 16016,
            2184 <= l <= 18018,
    ;
}

/// The base split's bounds, for callers outside this module.
pub proof fn lemma_base_facts_pub(b: Banner)
    requires
        b.wf(),
    ensures
        base_units(b).len() == 6,
        0 < scale(b) <= 18200 * 18200,
        0 < percent(b),
        100 * percent(b) <= u64::MAX,
{
    lemma_base_facts(b);
}

/// Gives the base weight of each tier, before any pity.
pub fn bases(b: &Banner) -> (r: [u64; 6])
    requires
        b.wf(),
    ensures
        r@.len() == 6,
        forall|i: int| 0 <= i < 6 ==> r@[i] == #[trigger] base_weights(*b)[i],
{
    let u = base_unit_row(b);
    proof {
        lemma_base_facts(*b);
    }
    let t = u[0] + u[1];
    let l = WHOLE - t;
    let s = t * l;
    proof {
        assert forall|i: int| 0 <= i < 6 implies u@[i] * s <= 18200 * (18200 * 18200) by {
            let x = u@[i] as int;
            assert(x * s <= 18200 * (18200 * 18200)) by (nonlinear_arith)
                requires
                    0 <= x <= 18200,
                    0 <= s <= 18200 * 18200,
            ;
        }
    }
    let r = [u[0] * s, u[1] * s, u[2] * s, u[3] * s, u[4] * s, u[5] * s];
    r
}

/// The base split of the pool in base units, as stated by `base_units`.
fn base_unit_row(b: &Banner) -> (r: [u64; 6])
    requires
        b.wf(),
    ensures
        r@.len() == 6,
        forall|i: int| 0 <= i < 6 ==> r@[i] == #[trigger] base_units(*b)[i],
{
    let (f, v) = b.starting_rates;
    if b.fourstar_focus.is_some() {
        [546, 546, 546, 546, 9464, 6552]
    } else if f == 6 && v == 0 {
        [1092, 0, 0, 546, 10374, 6188]
    } else {
        let f = f as u64;
        let v = v as u64;
        let rest = 97 - f - v;
        [182 * f, 182 * v, 0, 546, 110 * rest, 72 * rest]
    }
}

/// Gives the weight of each tier after `pity_incr` pity steps. The lower
/// tiers hand half a percentage point a step to the top tiers, each tier in
/// proportion to its base rate, until `MAX_PITY`, where the top tiers hold
/// the whole pool.
pub fn probabilities(b: &Banner, pity_incr: u32) -> (r: [u64; 6])
    requires
        b.wf(),
    ensures
        r@.len() == 6,
        forall|i: int| 0 <= i < 6 ==> r@[i] == #[trigger] pity_weights(*b, pity_incr as int)[i],
{
    let u = base_unit_row(b);
    proof {
        lemma_base_facts(*b);
    }
    let t = u[0] + u[1];
    let l = WHOLE - t;
    let s = t * l;
    let p: u64 = if pity_incr >= MAX_PITY {
        l
    } else {
        PITY_STEP * pity_incr as u64
    };
    assert(p <= l);
    let mut r: [u64; 6] = [0; 6];
    let mut i: usize = 0;
    while i < 6
        invariant
            0 <= i <= 6,
            r@.len() == 6,
            u@.len() == 6,
            forall|k: int| 0 <= k < 6 ==> u@[k] == #[trigger] base_units(*b)[k],
            forall|k: int| 0 <= k < 6 ==> 0 <= #[trigger] u@[k] <= 18200,
            t == top_units(*b),
            l == lower_units(*b),
            s == scale(*b),
            p == pity_units(*b, pity_incr as int),
            182 <= t <= 16016,
            2184 <= l <= 18018,
            p <= l,
            0 < s <= 18200 * 18200,
            forall|k: int| 0 <= k < i ==> r@[k] == #[trigger] pity_weights(*b, pity_incr as int)[k],
        decreases 6 - i,
    {
        let x = u[i];
        assert(x * s <= 18200 * (18200 * 18200)) by (nonlinear_arith)
            requires
                0 <= x <= 18200,
                0 <= s <= 18200 * 18200,
        ;
        assert(p * x <= 18200 * 18200) by (nonlinear_arith)
            requires
                0 <= x <= 18200,
                0 <= p <= 18200,
        ;
        if i < 2 {
            assert(p * x * l <= 18200 * 18200 * 18200) by (nonlinear_arith)
                requires
                    0 <= x <= 18200,
                    0 <= p <= 18200,
                    0 <= l <= 18200,
            ;
            r[i] = x * s + p * x * l;
        } else {
            assert(p * x * t <= x * s) by (nonlinear_arith)
                requires
                    0 <= x,
                    0 <= p <= l,
                    0 <= t,
                    s == t * l,
            ;
            r[i] = x * s - p * x * t;
        }
        i = i + 1;
    }
    r
}

/// With no pity, the tier weights are the base weights.
pub proof fn lemma_no_pity_is_base(b: Banner)
    requires
        b.wf(),
    ensures
        pity_weights(b, 0) == base_weights(b),
{
    assert(pity_weights(b, 0) =~= base_weights(b));
}

/// Every row of weights sums to the whole pool, one hundred percentage
/// points.
pub proof fn lemma_weights_total(b: Banner, p: int)
    requires
        b.wf(),
        p >= 0,
    ensures
        ({
            let w = pity_weights(b, p);
            w[0] + w[1] + w[2] + w[3] + w[4] + w[5] == 100 * percent(b)
        }),
{
    lemma_base_facts(b);
    let bu = base_units(b);
    let (t, l, q) = (top_units(b), lower_units(b), pity_units(b, p));
    let w = pity_weights(b, p);
    assert(w[0] + w[1] == t * t * l + q * t * l) by (nonlinear_arith)
        requires
            w[0] == bu[0] * (t * l) + q * bu[0] * l,
            w[1] == bu[1] * (t * l) + q * bu[1] * l,
            t == bu[0] + bu[1],
    ;
    let k = t * l - q * t;
    assert forall|i: int| 2 <= i < 6 implies #[trigger] w[i] == bu[i] * k by {
        let x = bu[i];
        assert(x * (t * l) - q * x * t == x * (t * l - q * t)) by (nonlinear_arith);
    }
    assert(w[2] + w[3] + w[4] + w[5] == (bu[2] + bu[3] + bu[4] + bu[5]) * k) by (nonlinear_arith)
        requires
            w[2] == bu[2] * k,
            w[3] == bu[3] * k,
            w[4] == bu[4] * k,
            w[5] == bu[5] * k,
    ;
    assert(l * k == l * t * l - q * l * t) by (nonlinear_arith)
        requires
            k == t * l - q * t,
    ;
    assert(w[0] + w[1] + w[2] + w[3] + w[4] + w[5] == 100 * (182 * (t * l))) by (nonlinear_arith)
        requires
            w[0] + w[1] == t * t * l + q * t * l,
            w[2] + w[3] + w[4] + w[5] == l * t * l - q * l * t,
            t + l == 18200,
    ;
}

/// The top tiers' mass never falls as pity rises, and from `MAX_PITY` on
/// they hold the whole pool: a top-tier draw is guaranteed.
pub proof fn lemma_top_mass_grows(b: Banner, lo: int, hi: int)
    requires
        b.wf(),
        0 <= lo <= hi,
    ensures
        top_mass(pity_weights(b, lo)) <= top_mass(pity_weights(b, hi)),
        hi >= MAX_PITY ==> top_mass(pity_weights(b, hi)) == 100 * percent(b),
{
    lemma_base_facts(b);
    let bu = base_units(b);
    let (t, l) = (top_units(b), lower_units(b));
    let (q_lo, q_hi) = (pity_units(b, lo), pity_units(b, hi));
    assert(q_lo <= q_hi);
    let w_lo = pity_weights(b, lo);
    let w_hi = pity_weights(b, hi);
    assert(top_mass(w_lo) == t * (t * l) + q_lo * t * l) by (nonlinear_arith)
        requires
            w_lo[0] == bu[0] * (t * l) + q_lo * bu[0] * l,
            w_lo[1] == bu[1] * (t * l) + q_lo * bu[1] * l,
            t == bu[0] + bu[1],
            top_mass(w_lo) == w_lo[0] + w_lo[1],
    ;
    assert(top_mass(w_hi) == t * (t * l) + q_hi * t * l) by (nonlinear_arith)
        requires
            w_hi[0] == bu[0] * (t * l) + q_hi * bu[0] * l,
            w_hi[1] == bu[1] * (t * l) + q_hi * bu[1] * l,
            t == bu[0] + bu[1],
            top_mass(w_hi) == w_hi[0] + w_hi[1],
    ;
    assert(q_lo * t * l <= q_hi * t * l) by (nonlinear_arith)
        requires
            q_lo <= q_hi,
            t >= 0,
            l >= 0,
    ;
    if hi >= MAX_PITY {
        assert(t * (t * l) + l * t * l == 100 * (182 * (t * l))) by (nonlinear_arith)
            requires
                t + l == 18200,
        ;
    }
}

} // verus!
