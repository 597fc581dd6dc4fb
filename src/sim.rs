//! Simulation of summoning sessions until a goal is met.
//!
//! Pity policy: a kept focus item resets the pity counter to zero; each
//! other top-tier item kept takes 20 off it (not below zero); every item
//! kept first adds one to it. The tier odds are read at `counter / 5` pity
//! steps. With focus charges, each other top-tier item kept adds a charge
//! (at most three); at three charges the next top-tier draws are focus
//! items, and a focus item spends the charges.

use crate::banner::Banner;
use crate::goal::{CustomGoal, Goal, GoalKind, GoalPart, lemma_custom_available, parts_available};
use crate::goal_data::{GoalData, has_fourstar_part, initial_outstanding, met, pull_outcome};
use crate::rates;
use crate::rng;
use crate::weighted_choice::{WeightedIndex4, WeightedIndex6, chosen, lemma_chosen_positive, prefix_sum};
use crate::{Color, Pool};
use vstd::prelude::*;

verus! {

/// Number of draws in a session.
pub const SESSION_SIZE: usize = 5;

/// Number of tier tables: one per pity step up to the guaranteed draw.
pub const PITY_LEVELS: usize = 26;

/// The results of a pull session.
#[derive(Copy, Clone, Debug)]
pub struct SessionResult {
    /// Number of draws kept (paid for).
    pub chosen_count: u32,
    /// Whether a kept draw was a focus item.
    pub got_focus: bool,
    /// Number of kept draws that were other top-tier items.
    pub nonfocus_count: u32,
}

/// State of a session after some of its draws: outstanding targets, draws
/// kept, whether a focus item was kept, other top-tier items kept.
pub open spec fn session_upto(
    o: Seq<Seq<u8>>,
    kind: GoalKind,
    fourstar_goal: bool,
    samples: Seq<(Pool, Color)>,
    picks: Seq<usize>,
    n: int,
) -> (Seq<Seq<u8>>, int, bool, int)
    decreases n,
{
    if n <= 0 {
        (o, 0, false, 0)
    } else {
        let prev = session_upto(o, kind, fourstar_goal, samples, picks, n - 1);
        let (pool, color) = samples[n - 1];
        let keep = prev.0[color.spec_index()].len() > 0 || (n - 1 == SESSION_SIZE - 1 && prev.1
            == 0);
        if keep {
            (
                pull_outcome(prev.0, kind, fourstar_goal, pool, color, picks[n - 1] as int),
                prev.1 + 1,
                prev.2 || pool == Pool::Focus,
                prev.3 + if pool == Pool::Fivestar {
                    1int
                } else {
                    0int
                },
            )
        } else {
            prev
        }
    }
}

proof fn lemma_session_bounds(
    o: Seq<Seq<u8>>,
    kind: GoalKind,
    fourstar_goal: bool,
    samples: Seq<(Pool, Color)>,
    picks: Seq<usize>,
    n: int,
)
    requires
        0 <= n <= SESSION_SIZE,
        o.len() == 4,
    ensures
        ({
            let s = session_upto(o, kind, fourstar_goal, samples, picks, n);
            &&& 0 <= s.3 <= s.1 <= n
            &&& s.0.len() == 4
            &&& n == SESSION_SIZE ==> s.1 >= 1
        }),
    decreases n,
{
    if n > 0 {
        lemma_session_bounds(o, kind, fourstar_goal, samples, picks, n - 1);
    }
}

/// Given a session of five drawn items, decides which ones are kept to
/// reach the goal, and applies them to it. A draw is kept when its color
/// still has outstanding targets; when none of the first four was kept, the
/// last one is kept anyway, since a session costs at least one draw.
/// `picks[i]` numbers the focus item that draw `i` is within its color.
pub fn session_select(
    goal_data: &mut GoalData,
    kind: GoalKind,
    samples: &[(Pool, Color); 5],
    picks: &[usize; 5],
) -> (r: SessionResult)
    requires
        old(goal_data).wf(),
    ensures
        final(goal_data).wf(),
        final(goal_data).spec_fourstar_goal() == old(goal_data).spec_fourstar_goal(),
        ({
            let s = session_upto(
                old(goal_data)@,
                kind,
                old(goal_data).spec_fourstar_goal(),
                samples@,
                picks@,
                5,
            );
            &&& final(goal_data)@ == s.0
            &&& r.chosen_count == s.1
            &&& r.got_focus == s.2
            &&& r.nonfocus_count == s.3
        }),
        1 <= r.chosen_count <= 5,
        r.nonfocus_count <= r.chosen_count,
{
    let ghost o = goal_data@;
    let ghost fs = goal_data.spec_fourstar_goal();
    let mut result = SessionResult { chosen_count: 0, got_focus: false, nonfocus_count: 0 };
    let mut i: usize = 0;
    proof {
        goal_data.lemma_view_len();
    }
    while i < SESSION_SIZE
        invariant
            i <= SESSION_SIZE,
            o.len() == 4,
            goal_data.wf(),
            goal_data.spec_fourstar_goal() == fs,
            ({
                let s = session_upto(o, kind, fs, samples@, picks@, i as int);
                &&& goal_data@ == s.0
                &&& result.chosen_count == s.1
                &&& result.got_focus == s.2
                &&& result.nonfocus_count == s.3
            }),
        decreases SESSION_SIZE - i,
    {
        proof {
            lemma_session_bounds(o, kind, fs, samples@, picks@, i as int);
            goal_data.lemma_view_len();
        }
        let (pool, color) = samples[i];
        if goal_data.may_match_goal(color) || (i == SESSION_SIZE - 1 && result.chosen_count == 0) {
            result.chosen_count = result.chosen_count + 1;
            goal_data.pull(kind, pool, color, picks[i]);
            result.got_focus = result.got_focus || pool == Pool::Focus;
            if pool == Pool::Fivestar {
                result.nonfocus_count = result.nonfocus_count + 1;
            }
        }
        i = i + 1;
    }
    proof {
        lemma_session_bounds(o, kind, fs, samples@, picks@, 5);
    }
    result
}

/// The total orb cost of keeping `count` draws of a session.
pub open spec fn spec_orb_cost(count: int) -> int {
    if count == 1 {
        5
    } else if count == 2 {
        9
    } else if count == 3 {
        13
    } else if count == 4 {
        17
    } else {
        20
    }
}

/// The total orb cost of choosing the given number of items from a session;
/// a session keeps one to five of them.
pub fn orb_cost(count: u32) -> (r: u32)
    requires
        1 <= count <= 5,
    ensures
        r == spec_orb_cost(count as int),
{
    match count {
        1 => 5,
        2 => 9,
        3 => 13,
        4 => 17,
        _ => 20,
    }
}

/// Pity counter and focus charges after a session.
pub open spec fn spec_next_pity(
    pity_count: int,
    focus_charges: int,
    result: SessionResult,
    charges_enabled: bool,
) -> (int, int) {
    let grown = if pity_count + result.chosen_count > u32::MAX {
        u32::MAX as int
    } else {
        pity_count + result.chosen_count
    };
    let pity = if result.got_focus {
        0
    } else if grown > 20 * result.nonfocus_count {
        grown - 20 * result.nonfocus_count
    } else {
        0
    };
    let spent = if result.got_focus && focus_charges == 3 {
        0
    } else {
        focus_charges
    };
    let charges = if !charges_enabled {
        spent
    } else if result.got_focus {
        0
    } else if spent + result.nonfocus_count > 3 {
        3
    } else {
        spent + result.nonfocus_count
    };
    (pity, charges)
}

/// Updates the pity counter and the focus charges after a session.
pub fn next_pity(pity_count: u32, focus_charges: u32, result: SessionResult, charges_enabled: bool) -> (r: (u32, u32))
    requires
        focus_charges <= 3,
        result.nonfocus_count <= 5,
    ensures
        r.0 == spec_next_pity(pity_count as int, focus_charges as int, result, charges_enabled).0,
        r.1 == spec_next_pity(pity_count as int, focus_charges as int, result, charges_enabled).1,
        r.1 <= 3,
{
    let grown = pity_count.saturating_add(result.chosen_count);
    let pity = if result.got_focus {
        0
    } else {
        grown.saturating_sub(20 * result.nonfocus_count)
    };
    let mut charges = focus_charges;
    if result.got_focus && charges == 3 {
        charges = 0;
    }
    if charges_enabled {
        charges = if charges + result.nonfocus_count > 3 {
            3
        } else {
            charges + result.nonfocus_count
        };
        if result.got_focus {
            charges = 0;
        }
    }
    (pity, charges)
}

/// Progress of a trial between sessions.
#[derive(Copy, Clone, Debug)]
pub struct TrialState {
    /// Items kept since the pity counter was last reset, less decay.
    pub pity_count: u32,
    /// Focus charges gathered, at most three.
    pub focus_charges: u32,
    /// Orbs spent so far.
    pub orb_count: u32,
}

/// The result of a session as `session_select` returns it.
pub open spec fn result_of(s: (Seq<Seq<u8>>, int, bool, int)) -> SessionResult {
    SessionResult { chosen_count: s.1 as u32, got_focus: s.2, nonfocus_count: s.3 as u32 }
}

/// Plays one session of a trial: keeps the draws that the goal wants (see
/// `session_select`), pays for them, and updates pity and focus charges
/// (see `next_pity`). There is no next state when the cost would pass
/// `u32::MAX`; the goal is updated either way.
pub fn trial_step(
    st: TrialState,
    goal_data: &mut GoalData,
    kind: GoalKind,
    samples: &[(Pool, Color); 5],
    picks: &[usize; 5],
    charges_enabled: bool,
) -> (r: Option<TrialState>)
    requires
        old(goal_data).wf(),
        st.focus_charges <= 3,
    ensures
        final(goal_data).wf(),
        final(goal_data).spec_fourstar_goal() == old(goal_data).spec_fourstar_goal(),
        ({
            let s = session_upto(
                old(goal_data)@,
                kind,
                old(goal_data).spec_fourstar_goal(),
                samples@,
                picks@,
                5,
            );
            let np = spec_next_pity(
                st.pity_count as int,
                st.focus_charges as int,
                result_of(s),
                charges_enabled,
            );
            &&& final(goal_data)@ == s.0
            &&& 1 <= s.1 <= 5
            &&& (r is None <==> st.orb_count + spec_orb_cost(s.1) > u32::MAX)
            &&& r matches Some(n) ==> n.orb_count == st.orb_count + spec_orb_cost(s.1)
                && n.pity_count == np.0 && n.focus_charges == np.1
        }),
{
    let result = session_select(goal_data, kind, samples, picks);
    let (pity_count, focus_charges) = next_pity(
        st.pity_count,
        st.focus_charges,
        result,
        charges_enabled,
    );
    let cost = orb_cost(result.chosen_count);
    if st.orb_count > u32::MAX - cost {
        return None;
    }
    Some(TrialState { pity_count, focus_charges, orb_count: st.orb_count + cost })
}

/// What a trial records of one session: the five items drawn, which focus
/// item each is within its color, the outstanding targets after it, and
/// the pity counter, focus charges and total cost after it. The cost is an
/// integer, so that it may pass `u32::MAX`.
pub type SessionRecord = (Seq<(Pool, Color)>, Seq<usize>, Seq<Seq<u8>>, (int, int, int));

/// Pity counter, focus charges and cost before session `k` of a trial.
pub open spec fn state_before(h: Seq<SessionRecord>, k: int) -> (int, int, int) {
    if k == 0 {
        (0, 0, 0)
    } else {
        h[k - 1].3
    }
}

/// Outstanding targets before session `k` of a trial that started with
/// `start`.
pub open spec fn goal_before(h: Seq<SessionRecord>, start: Seq<Seq<u8>>, k: int) -> Seq<Seq<u8>> {
    if k == 0 {
        start
    } else {
        h[k - 1].2
    }
}

/// Session `k` of the trial is one that the rules allow: its items can be
/// drawn at the pity table `counter / 5` (with focus charges active at
/// three charges), each focus item number is below that color's focus
/// count, and the targets, pity, charges and cost after it follow from the
/// ones before by `session_select`, `next_pity` and `orb_cost`.
pub open spec fn valid_session(
    b: Banner,
    kind: GoalKind,
    fourstar_goal: bool,
    start: Seq<Seq<u8>>,
    h: Seq<SessionRecord>,
    k: int,
) -> bool {
    let before = state_before(h, k);
    let rec = h[k];
    let s = session_upto(goal_before(h, start, k), kind, fourstar_goal, rec.0, rec.1, 5);
    let np = spec_next_pity(before.0, before.1, result_of(s), b.focus_charges);
    &&& rec.0.len() == 5
    &&& rec.1.len() == 5
    &&& forall|j: int|
        0 <= j < 5 ==> drawable(b, pity_level(before.0 / 5), before.1 == 3, #[trigger] rec.0[j])
    &&& forall|j: int|
        0 <= j < 5 && rec.0[j].0 == Pool::Focus && b.focus_size(rec.0[j].1.spec_index()) > 0
            ==> #[trigger] rec.1[j] < b.focus_size(rec.0[j].1.spec_index())
    &&& rec.2 == s.0
    &&& rec.3 == (np.0, np.1, before.2 + spec_orb_cost(s.1))
}

/// Number of items of each color in a tier: the banner's focus counts for
/// the focus tier, the designated bonus item for its tier, fixed counts
/// for the others.
pub open spec fn spec_pool_sizes(b: Banner, pool: int) -> Seq<u64> {
    if pool == 0 {
        Seq::new(4, |c: int| b.focus_size(c) as u64)
    } else if pool == 1 {
        seq![26, 19, 14, 17]
    } else if pool == 2 {
        Seq::new(
            4,
            |c: int|
                if b.fourstar_focus == Some(Color::spec_from_index(c)) {
                    1u64
                } else {
                    0u64
                },
        )
    } else if pool == 3 {
        seq![69, 56, 45, 34]
    } else {
        seq![45, 46, 37, 50]
    }
}

/// Number of items of each color in a tier, as stated by `spec_pool_sizes`.
pub fn pool_sizes(b: &Banner, pool: usize) -> (r: [u64; 4])
    requires
        b.wf(),
        pool < 6,
    ensures
        r@ == spec_pool_sizes(*b, pool as int),
{
    let r: [u64; 4] = if pool == 0 {
        let s = b.focus_sizes;
        [s[0] as u64, s[1] as u64, s[2] as u64, s[3] as u64]
    } else if pool == 1 {
        [26, 19, 14, 17]
    } else if pool == 2 {
        let mut r: [u64; 4] = [0, 0, 0, 0];
        match b.fourstar_focus {
            Some(c) => {
                r[c.index()] = 1;
            },
            None => {},
        }
        r
    } else if pool == 3 {
        [69, 56, 45, 34]
    } else {
        [45, 46, 37, 50]
    };
    assert(r@ =~= spec_pool_sizes(*b, pool as int));
    r
}

/// The pity table that `pity_incr` steps read: the last one past its end.
pub open spec fn pity_level(pity_incr: int) -> int {
    if pity_incr >= PITY_LEVELS {
        PITY_LEVELS - 1
    } else {
        pity_incr
    }
}

/// The item `s` can come out of a draw at pity table `level`: its tier
/// has weight there (an other top-tier draw counting as a focus item while
/// charges are active), and its color has items in that tier.
pub open spec fn drawable(b: Banner, level: int, focus_charge_active: bool, s: (Pool, Color)) -> bool {
    &&& exists|t: int|
        0 <= t < 6 && rates::tier_row(b, level)[t] > 0 && s.0 == drawn_pool(t, focus_charge_active)
    &&& spec_pool_sizes(b, s.0.spec_index())[s.1.spec_index()] > 0
}

/// The pool that a draw of tier `t` yields: with focus charges active, an
/// other top-tier draw is a focus item.
pub open spec fn drawn_pool(t: int, focus_charge_active: bool) -> Pool {
    if focus_charge_active && t == 1 {
        Pool::Focus
    } else {
        Pool::spec_from_index(t)
    }
}

/// A tier that a draw can yield has items: the focus tier since the banner
/// has focus items, the bonus tier since it has weight only with a bonus
/// item, the other tiers always.
proof fn lemma_drawn_tier_has_items(b: Banner, t: int, level: int)
    requires
        b.wf(),
        0 <= t < 6,
        t == 2 ==> rates::tier_row(b, level)[2] > 0,
    ensures
        prefix_sum(spec_pool_sizes(b, t), 4) > 0,
{
    reveal_with_fuel(prefix_sum, 5);
    if t == 2 {
        if b.fourstar_focus.is_none() {
            rates::lemma_bonus_tier_weight(b, level);
        }
        let c = b.fourstar_focus.unwrap();
        let sizes = spec_pool_sizes(b, 2);
        assert(sizes[c.spec_index()] == 1);
        assert(Color::spec_from_index(c.spec_index()) == c);
    } else if t == 0 {
        let sizes = spec_pool_sizes(b, 0);
        assert(sizes[0] == b.focus_size(0));
        assert(sizes[1] == b.focus_size(1));
        assert(sizes[2] == b.focus_size(2));
        assert(sizes[3] == b.focus_size(3));
    }
}

/// Precalculated samplers: the tier at each pity step, and the color
/// within each tier (none for a tier without items).
#[derive(Debug)]
struct RandTables {
    pool_dists: Vec<WeightedIndex6>,
    color_dists: Vec<Option<WeightedIndex4>>,
}

impl RandTables {
    /// The samplers are those of the banner's tier weights at each pity
    /// step, and of its item counts in each tier that has items.
    spec fn wf(&self, b: Banner) -> bool {
        &&& self.pool_dists@.len() == PITY_LEVELS
        &&& forall|p: int|
            0 <= p < PITY_LEVELS ==> {
                &&& (#[trigger] self.pool_dists@[p]).wf()
                &&& forall|i: int|
                    0 <= i < 6 ==> self.pool_dists@[p].spec_cumulative()[i] == prefix_sum(
                        rates::tier_row(b, p),
                        i + 1,
                    )
            }
        &&& self.color_dists@.len() == 6
        &&& forall|t: int|
            0 <= t < 6 ==> match #[trigger] self.color_dists@[t] {
                Some(d) => {
                    &&& d.wf()
                    &&& forall|i: int|
                        0 <= i < 4 ==> d.spec_cumulative()[i] == prefix_sum(
                            spec_pool_sizes(b, t),
                            i + 1,
                        )
                },
                None => prefix_sum(spec_pool_sizes(b, t), 4) == 0,
            }
    }
}

/// Why a simulation could not be set up.
#[derive(Copy, Clone, PartialEq, Eq, Structural, Debug)]
pub enum SimError {
    /// The banner has a negative focus count, no focus item, or top-tier
    /// rates outside `1..=MAX_TOP_RATE` points.
    InvalidBanner,
    /// The goal cannot be met on the banner.
    Unavailable,
    /// The operating system could not seed the generator.
    NoEntropy,
}

/// A structure holding the information for a sequence of summoning
/// sessions done until a certain goal is reached. Keeps some cached
/// information in order to make the simulation as fast as possible.
pub struct Sim {
    banner: Banner,
    goal: CustomGoal,
    tables: RandTables,
    rng: rand::rngs::SmallRng,
    goal_data: GoalData,
    trial: Ghost<Seq<SessionRecord>>,
}

impl Sim {
    pub closed spec fn wf(&self) -> bool {
        &&& self.banner.wf()
        &&& self.tables.wf(self.banner)
        &&& self.goal_data.wf()
        &&& parts_available(self.goal.kind, self.goal.goals@, self.banner)
    }

    /// The banner being simulated.
    pub closed spec fn spec_banner(&self) -> Banner {
        self.banner
    }

    /// The goal's parts.
    pub closed spec fn spec_goal_parts(&self) -> Seq<GoalPart> {
        self.goal.goals@
    }

    /// The outstanding targets of the current trial, by color.
    pub closed spec fn spec_progress(&self) -> Seq<Seq<u8>> {
        self.goal_data@
    }

    /// The goal's kind.
    pub closed spec fn spec_goal_kind(&self) -> GoalKind {
        self.goal.kind
    }

    /// The sessions of the last trial, in order.
    pub closed spec fn spec_trial(&self) -> Seq<SessionRecord> {
        self.trial@
    }

    /// Creates a new simulator for the given banner and goal, doing some
    /// moderately expensive initialization, with a generator seeded by the
    /// operating system. The banner and the goal are checked before the
    /// operating system is asked for a seed.
    pub fn new(banner: Banner, goal: Goal) -> (r: Result<Sim, SimError>)
        ensures
            (r matches Err(e) && e == SimError::InvalidBanner) <==> !banner.wf(),
            (r matches Err(e) && e == SimError::Unavailable) <==> banner.wf()
                && !goal.spec_is_available(banner),
            banner.wf() && goal.spec_is_available(banner) ==> (r is Ok || (r matches Err(e) && e
                == SimError::NoEntropy)),
            r matches Ok(s) ==> s.wf() && s.spec_banner() == banner,
            r matches Ok(s) ==> s.spec_goal_kind() == goal.spec_custom_kind(),
            r matches Ok(s) ==> s.spec_goal_parts() == goal.spec_custom_parts(banner),
    {
        let custom = match Sim::check_config(&banner, &goal) {
            Ok(c) => c,
            Err(e) => {
                return Err(e);
            },
        };
        match rng::from_os() {
            Some(rng) => Ok(Sim::build(banner, custom, rng)),
            None => Err(SimError::NoEntropy),
        }
    }

    /// As `new`, with a generator whose stream is fixed by `seed`.
    pub fn with_seed(banner: Banner, goal: Goal, seed: u64) -> (r: Result<Sim, SimError>)
        ensures
            (r matches Err(e) && e == SimError::InvalidBanner) <==> !banner.wf(),
            (r matches Err(e) && e == SimError::Unavailable) <==> banner.wf()
                && !goal.spec_is_available(banner),
            r is Err <==> !banner.wf() || !goal.spec_is_available(banner),
            r matches Ok(s) ==> s.wf() && s.spec_banner() == banner,
            r matches Ok(s) ==> s.spec_goal_kind() == goal.spec_custom_kind(),
            r matches Ok(s) ==> s.spec_goal_parts() == goal.spec_custom_parts(banner),
    {
        let custom = match Sim::check_config(&banner, &goal) {
            Ok(c) => c,
            Err(e) => {
                return Err(e);
            },
        };
        Ok(Sim::build(banner, custom, rng::seeded(seed)))
    }

    /// Checks the banner and the goal, and converts the goal.
    fn check_config(banner: &Banner, goal: &Goal) -> (r: Result<CustomGoal, SimError>)
        ensures
            (r matches Err(e) && e == SimError::InvalidBanner) <==> !banner.wf(),
            (r matches Err(e) && e == SimError::Unavailable) <==> banner.wf()
                && !goal.spec_is_available(*banner),
            r is Err <==> !banner.wf() || !goal.spec_is_available(*banner),
            r matches Ok(c) ==> c.kind == goal.spec_custom_kind() && c.goals@
                == goal.spec_custom_parts(*banner) && parts_available(c.kind, c.goals@, *banner),
    {
        if !banner.is_valid() {
            return Err(SimError::InvalidBanner);
        }
        if !goal.is_available(banner) {
            return Err(SimError::Unavailable);
        }
        proof {
            lemma_custom_available(goal, *banner);
        }
        Ok(goal.as_custom(banner))
    }

    fn build(banner: Banner, custom: CustomGoal, rng: rand::rngs::SmallRng) -> (r: Sim)
        requires
            banner.wf(),
            parts_available(custom.kind, custom.goals@, banner),
        ensures
            r.wf(),
            r.banner == banner,
            r.goal == custom,
    {
        let goal_data = GoalData::new(&custom);
        let tables = Sim::init_probability_tables(&banner);
        Sim { banner, goal: custom, tables, rng, goal_data, trial: Ghost(Seq::empty()) }
    }

    /// Builds the samplers used for fast random sampling.
    fn init_probability_tables(banner: &Banner) -> (r: RandTables)
        requires
            banner.wf(),
        ensures
            r.wf(*banner),
    {
        let mut color_dists: Vec<Option<WeightedIndex4>> = Vec::new();
        let mut t: usize = 0;
        while t < 6
            invariant
                banner.wf(),
                t <= 6,
                color_dists@.len() == t,
                forall|k: int|
                    0 <= k < t ==> match #[trigger] color_dists@[k] {
                        Some(d) => {
                            &&& d.wf()
                            &&& forall|i: int|
                                0 <= i < 4 ==> d.spec_cumulative()[i] == prefix_sum(
                                    spec_pool_sizes(*banner, k),
                                    i + 1,
                                )
                        },
                        None => prefix_sum(spec_pool_sizes(*banner, k), 4) == 0,
                    },
            decreases 6 - t,
        {
            let sizes = pool_sizes(banner, t);
            proof {
                reveal_with_fuel(prefix_sum, 5);
            }
            color_dists.push(WeightedIndex4::new(sizes));
            t = t + 1;
        }
        let mut pool_dists: Vec<WeightedIndex6> = Vec::new();
        let mut p: usize = 0;
        while p < PITY_LEVELS
            invariant
                banner.wf(),
                p <= PITY_LEVELS,
                pool_dists@.len() == p,
                forall|k: int|
                    0 <= k < p ==> {
                        &&& (#[trigger] pool_dists@[k]).wf()
                        &&& forall|i: int|
                            0 <= i < 6 ==> pool_dists@[k].spec_cumulative()[i] == prefix_sum(
                                rates::tier_row(*banner, k),
                                i + 1,
                            )
                    },
            decreases PITY_LEVELS - p,
        {
            let row = rates::probabilities(banner, p as u32);
            proof {
                rates::lemma_weights_total(*banner, p as int);
                reveal_with_fuel(prefix_sum, 7);
                rates::lemma_base_facts_pub(*banner);
                assert(row@ =~= rates::tier_row(*banner, p as int));
            }
            match WeightedIndex6::new(row) {
                Some(d) => pool_dists.push(d),
                None => {
                    proof {
                        assert(false);
                    }
                },
            }
            p = p + 1;
        }
        RandTables { pool_dists, color_dists }
    }

    /// Chooses a weighted random item from the summoning pool: a tier by
    /// its weight at `pity_incr` pity steps (the last table past it), then
    /// a color by the tier's item counts. With `focus_charge_active`, an
    /// other top-tier draw is a focus item.
    fn sample(&mut self, pity_incr: u32, focus_charge_active: bool) -> (r: (Pool, Color))
        requires
            old(self).wf(),
        ensures
            final(self).wf(),
            final(self).spec_banner() == old(self).spec_banner(),
            final(self).goal_data == old(self).goal_data,
            final(self).goal == old(self).goal,
            final(self).trial == old(self).trial,
            drawable(old(self).banner, pity_level(pity_incr as int), focus_charge_active, r),
    {
        let ghost b = self.banner;
        let level: usize = if pity_incr as usize >= PITY_LEVELS {
            PITY_LEVELS - 1
        } else {
            pity_incr as usize
        };
        let tier = self.tables.pool_dists[level].sample(&mut self.rng);
        proof {
            let d = self.tables.pool_dists@[level as int];
            let u = choose|u: int| 0 <= u < d.spec_total() && tier == chosen(d.spec_cumulative(), u);
            lemma_chosen_positive(rates::tier_row(b, level as int), d.spec_cumulative(), u);
        }
        let mut pool = Pool::from_index(tier);
        if focus_charge_active && pool == Pool::Fivestar {
            pool = Pool::Focus;
        }
        proof {
            assert(level == pity_level(pity_incr as int));
            assert(rates::tier_row(b, level as int)[tier as int] > 0 && pool == drawn_pool(
                tier as int,
                focus_charge_active,
            ));
            lemma_drawn_tier_has_items(b, pool.spec_index(), level as int);
        }
        let color = match &self.tables.color_dists[pool.index()] {
            Some(d) => {
                let c = d.sample(&mut self.rng);
                proof {
                    let u = choose|u: int|
                        0 <= u < d.spec_total() && c == chosen(d.spec_cumulative(), u);
                    lemma_chosen_positive(spec_pool_sizes(b, pool.spec_index()), d.spec_cumulative(), u);
                }
                Color::from_index(c)
            },
            None => {
                // A tier that can be drawn always has items.
                proof {
                    assert(false);
                }
                Color::Red
            },
        };
        (pool, color)
    }

    /// Draws which focus item of its color a focus-tier draw is, uniformly
    /// among the banner's focus items of that color; zero for other draws.
    fn pick_unit(&mut self, sample: (Pool, Color)) -> (r: usize)
        requires
            old(self).wf(),
        ensures
            final(self).wf(),
            final(self).spec_banner() == old(self).spec_banner(),
            final(self).goal_data == old(self).goal_data,
            final(self).goal == old(self).goal,
            final(self).trial == old(self).trial,
            sample.0 == Pool::Focus && old(self).banner.focus_size(sample.1.spec_index()) > 0
                ==> r < old(self).banner.focus_size(sample.1.spec_index()),
    {
        let n = self.banner.focus_sizes[sample.1.index()];
        if sample.0 == Pool::Focus && n > 0 {
            rng::below(&mut self.rng, n as u64) as usize
        } else {
            0
        }
    }

    /// Resets the progress towards the goal for a new trial.
    fn init_goal_data(&mut self)
        requires
            old(self).wf(),
        ensures
            final(self).wf(),
            final(self).spec_banner() == old(self).spec_banner(),
            final(self).goal == old(self).goal,
            final(self).trial == old(self).trial,
            final(self).goal_data@ == initial_outstanding(old(self).goal.goals@),
            final(self).goal_data.spec_fourstar_goal() == has_fourstar_part(old(self).goal.goals@),
    {
        self.goal_data = GoalData::new(&self.goal);
    }

    /// Simulates sessions until the goal is met, then returns the number of
    /// orbs used: the sum of the sessions' costs. Each session is one
    /// `trial_step` on items drawn at pity table `pity_count / 5`. A trial
    /// whose cost would pass `u32::MAX` stops there and reports `u32::MAX`.
    /// The sessions played are recorded in `spec_trial`.
    pub fn roll_until_goal(&mut self) -> (r: u32)
        requires
            old(self).wf(),
        ensures
            final(self).wf(),
            final(self).spec_banner() == old(self).spec_banner(),
            final(self).spec_goal_parts() == old(self).spec_goal_parts(),
            final(self).spec_goal_kind() == old(self).spec_goal_kind(),
            ({
                let h = final(self).spec_trial();
                let b = old(self).spec_banner();
                let parts = old(self).spec_goal_parts();
                let last = h[h.len() - 1];
                &&& h.len() >= 1
                &&& forall|k: int|
                    0 <= k < h.len() ==> valid_session(
                        b,
                        old(self).spec_goal_kind(),
                        has_fourstar_part(parts),
                        initial_outstanding(parts),
                        h,
                        k,
                    )
                &&& forall|k: int|
                    0 <= k < h.len() - 1 ==> !met(#[trigger] h[k].2) && h[k].3.2 <= u32::MAX
                &&& final(self).spec_progress() == last.2
                &&& last.3.2 > u32::MAX ==> r == u32::MAX
                &&& last.3.2 <= u32::MAX ==> r == last.3.2 && met(last.2)
            }),
            r >= 5,
    {
        self.init_goal_data();
        let ghost b = self.banner;
        let ghost g = self.goal;
        let ghost start = self.goal_data@;
        let ghost fs = self.goal_data.spec_fourstar_goal();
        let ghost kind = self.goal.kind;
        self.trial = Ghost(Seq::empty());
        let mut st = TrialState { pity_count: 0, focus_charges: 0, orb_count: 0 };
        loop
            invariant
                self.wf(),
                self.banner == b,
                self.goal == g,
                b == old(self).banner,
                g == old(self).goal,
                kind == g.kind,
                start == initial_outstanding(g.goals@),
                fs == has_fourstar_part(g.goals@),
                self.goal_data.spec_fourstar_goal() == fs,
                st.focus_charges <= 3,
                st.orb_count == 0 || st.orb_count >= 5,
                self.trial@.len() == 0 ==> st.orb_count == 0,
                self.goal_data@ == goal_before(self.trial@, start, self.trial@.len() as int),
                state_before(self.trial@, self.trial@.len() as int) == (
                    st.pity_count as int,
                    st.focus_charges as int,
                    st.orb_count as int,
                ),
                forall|k: int|
                    0 <= k < self.trial@.len() ==> valid_session(b, kind, fs, start, self.trial@, k),
                forall|k: int|
                    0 <= k < self.trial@.len() ==> !met(#[trigger] self.trial@[k].2)
                        && self.trial@[k].3.2 <= u32::MAX,
            decreases u32::MAX - st.orb_count,
        {
            let pity_incr = st.pity_count / 5;
            let active = st.focus_charges == 3;
            let s0 = self.sample(pity_incr, active);
            let s1 = self.sample(pity_incr, active);
            let s2 = self.sample(pity_incr, active);
            let s3 = self.sample(pity_incr, active);
            let s4 = self.sample(pity_incr, active);
            let samples = [s0, s1, s2, s3, s4];
            let pick0 = self.pick_unit(s0);
            let pick1 = self.pick_unit(s1);
            let pick2 = self.pick_unit(s2);
            let pick3 = self.pick_unit(s3);
            let pick4 = self.pick_unit(s4);
            let picks = [pick0, pick1, pick2, pick3, pick4];
            let ghost before = self.trial@;
            let ghost goal_prev = self.goal_data@;
            let next = trial_step(
                st,
                &mut self.goal_data,
                self.goal.kind,
                &samples,
                &picks,
                self.banner.focus_charges,
            );
            proof {
                let s = session_upto(goal_prev, kind, fs, samples@, picks@, 5);
                let np = spec_next_pity(
                    st.pity_count as int,
                    st.focus_charges as int,
                    result_of(s),
                    b.focus_charges,
                );
                let rec: SessionRecord = (
                    samples@,
                    picks@,
                    self.goal_data@,
                    (np.0, np.1, st.orb_count + spec_orb_cost(s.1)),
                );
                let h = before.push(rec);
                let n = before.len() as int;
                assert(h[n] == rec);
                assert(samples@[0] == s0 && samples@[1] == s1 && samples@[2] == s2
                    && samples@[3] == s3 && samples@[4] == s4);
                assert(picks@[0] == pick0 && picks@[1] == pick1 && picks@[2] == pick2
                    && picks@[3] == pick3 && picks@[4] == pick4);
                assert(pity_level(state_before(h, n).0 / 5) == pity_level(pity_incr as int));
                assert forall|k: int| 0 <= k < h.len() implies valid_session(
                    b,
                    kind,
                    fs,
                    start,
                    h,
                    k,
                ) by {
                    if k < n {
                        assert(h[k] == before[k]);
                        if k > 0 {
                            assert(h[k - 1] == before[k - 1]);
                        }
                        assert(valid_session(b, kind, fs, start, before, k));
                    } else {
                        if k > 0 {
                            assert(h[k - 1] == before[k - 1]);
                        }
                    }
                }
                self.trial = Ghost(h);
            }
            match next {
                None => {
                    return u32::MAX;
                },
                Some(n) => {
                    st = n;
                },
            }
            if self.goal_data.is_met() {
                return st.orb_count;
            }
        }
    }

    /// The progress of the current trial towards the goal.
    pub fn goal_data(&self) -> (r: &GoalData)
        ensures
            r@ == self.spec_progress(),
    {
        &self.goal_data
    }
}

} // verus!
