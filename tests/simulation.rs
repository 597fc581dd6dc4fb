use fehstatsim::banner::Banner;
use fehstatsim::counter::Counter;
use fehstatsim::goal::{CustomGoal, Goal, GoalKind, GoalPart, GoalPreset};
use fehstatsim::goal_data::GoalData;
use fehstatsim::sim::{
    next_pity, orb_cost, pool_sizes, session_select, trial_step, SessionResult, Sim, SimError, TrialState,
};
use fehstatsim::stats::{percentile, Fraction};
use fehstatsim::{Color, Pool};

fn part(color: Color, copies: u8) -> GoalPart {
    GoalPart { unit_color: color, num_copies: copies, four_star: false }
}

#[test]
fn cost_schedule() {
    let costs: Vec<u32> = (1..=5).map(orb_cost).collect();
    assert_eq!(costs, vec![5, 9, 13, 17, 20]);
}

#[test]
fn session_keeps_needed_colors() {
    let g = CustomGoal { kind: GoalKind::All, goals: vec![part(Color::Red, 2)] };
    let mut d = GoalData::new(&g);
    let samples = [
        (Pool::Fourstar, Color::Blue),
        (Pool::Focus, Color::Red),
        (Pool::Threestar, Color::Red),
        (Pool::Fivestar, Color::Green),
        (Pool::Fivestar, Color::Red),
    ];
    let r = session_select(&mut d, GoalKind::All, &samples, &[0, 0, 0, 0, 0]);
    assert_eq!(r.chosen_count, 3);
    assert!(r.got_focus);
    assert_eq!(r.nonfocus_count, 1);
    assert_eq!(d.outstanding(Color::Red), &vec![1]);
}

#[test]
fn session_forces_one_keep() {
    let g = CustomGoal { kind: GoalKind::All, goals: vec![part(Color::Red, 1)] };
    let mut d = GoalData::new(&g);
    let samples = [
        (Pool::Fourstar, Color::Blue),
        (Pool::Focus, Color::Green),
        (Pool::Threestar, Color::Blue),
        (Pool::Fivestar, Color::Green),
        (Pool::Fivestar, Color::Colorless),
    ];
    let r = session_select(&mut d, GoalKind::All, &samples, &[0, 0, 0, 0, 0]);
    assert_eq!(r.chosen_count, 1);
    assert!(!r.got_focus);
    assert_eq!(r.nonfocus_count, 1);
    assert_eq!(d.outstanding(Color::Red), &vec![1]);
}

#[test]
fn session_stops_keeping_once_met() {
    let g = CustomGoal { kind: GoalKind::All, goals: vec![part(Color::Red, 1)] };
    let mut d = GoalData::new(&g);
    let samples = [(Pool::Focus, Color::Red); 5];
    let r = session_select(&mut d, GoalKind::All, &samples, &[0, 0, 0, 0, 0]);
    assert_eq!(r.chosen_count, 1);
    assert!(d.is_met());
}

#[test]
fn pity_updates() {
    let miss = SessionResult { chosen_count: 3, got_focus: false, nonfocus_count: 0 };
    assert_eq!(next_pity(10, 0, miss, true), (13, 0));
    let other_top = SessionResult { chosen_count: 2, got_focus: false, nonfocus_count: 1 };
    assert_eq!(next_pity(30, 1, other_top, true), (12, 2));
    assert_eq!(next_pity(10, 1, other_top, true), (0, 2));
    assert_eq!(next_pity(10, 3, other_top, true), (0, 3));
    assert_eq!(next_pity(10, 1, other_top, false), (0, 1));
    let focus = SessionResult { chosen_count: 1, got_focus: true, nonfocus_count: 0 };
    assert_eq!(next_pity(40, 3, focus, true), (0, 0));
    assert_eq!(next_pity(40, 3, focus, false), (0, 0));
    assert_eq!(next_pity(40, 2, focus, false), (0, 2));
}

#[test]
fn tier_pool_sizes() {
    let mut b = Banner::default();
    b.focus_sizes = [2, 0, 1, 3];
    assert_eq!(pool_sizes(&b, 0), [2, 0, 1, 3]);
    assert_eq!(pool_sizes(&b, 2), [0, 0, 0, 0]);
    b.fourstar_focus = Some(Color::Green);
    assert_eq!(pool_sizes(&b, 2), [0, 0, 1, 0]);
    assert_eq!(pool_sizes(&b, 1), [26, 19, 14, 17]);
    assert_eq!(pool_sizes(&b, 3), [69, 56, 45, 34]);
    assert_eq!(pool_sizes(&b, 5), [45, 46, 37, 50]);
}

#[test]
fn invalid_configurations_are_refused() {
    let mut b = Banner::default();
    b.focus_sizes = [-1, 1, 1, 1];
    assert_eq!(Sim::new(b, Goal::default()).err(), Some(SimError::InvalidBanner));
    let mut b = Banner::default();
    b.starting_rates = (80, 10);
    assert_eq!(Sim::new(b, Goal::default()).err(), Some(SimError::InvalidBanner));
    let mut b = Banner::default();
    b.starting_rates = (0, 0);
    assert_eq!(Sim::new(b, Goal::default()).err(), Some(SimError::InvalidBanner));
    let mut b = Banner::default();
    b.focus_sizes = [1, 0, 0, 0];
    assert_eq!(
        Sim::new(b, Goal::Preset(GoalPreset::BlueFocus, 1)).err(),
        Some(SimError::Unavailable)
    );
}

#[test]
fn trials_cost_at_least_one_session() {
    let mut sim = Sim::with_seed(Banner::default(), Goal::default(), 11).unwrap();
    for _ in 0..200 {
        let cost = sim.roll_until_goal();
        assert!(cost >= 5);
        assert!(sim.goal_data().is_met());
    }
}

#[test]
fn single_focus_item_median_in_range() {
    let b = Banner { focus_sizes: [1, 0, 0, 0], starting_rates: (3, 3), focus_charges: false, fourstar_focus: None };
    let goal = Goal::Custom(CustomGoal { kind: GoalKind::Any, goals: vec![part(Color::Red, 1)] });
    let mut sim = Sim::with_seed(b, goal, 2024).unwrap();
    let mut hist = Counter::new();
    for _ in 0..10_000 {
        hist.increment(sim.roll_until_goal());
    }
    assert_eq!(hist.total_count(), 10_000);
    let median = percentile(&hist, Fraction { num: 1, den: 2 });
    // About one kept red draw in twelve is the focus item, and a session
    // keeps under two red draws on average: a median of five sessions or
    // so, each costing five to nine orbs.
    assert!((25..=50).contains(&median), "median {}", median);
}

#[test]
fn more_copies_cost_more() {
    let b = Banner::default();
    let mut one = Sim::with_seed(b, Goal::Preset(GoalPreset::RedFocus, 1), 5).unwrap();
    let mut three = Sim::with_seed(b, Goal::Preset(GoalPreset::RedFocus, 3), 5).unwrap();
    let mut h1 = Counter::new();
    let mut h3 = Counter::new();
    for _ in 0..2000 {
        h1.increment(one.roll_until_goal());
        h3.increment(three.roll_until_goal());
    }
    let half = Fraction { num: 1, den: 2 };
    assert!(percentile(&h3, half) > percentile(&h1, half));
}

#[test]
fn trial_step_pays_and_updates_pity() {
    let g = CustomGoal { kind: GoalKind::All, goals: vec![part(Color::Red, 2)] };
    let mut d = GoalData::new(&g);
    let samples = [
        (Pool::Fourstar, Color::Red),
        (Pool::Fivestar, Color::Red),
        (Pool::Threestar, Color::Blue),
        (Pool::Fourstar, Color::Green),
        (Pool::Threestar, Color::Red),
    ];
    let st = TrialState { pity_count: 27, focus_charges: 2, orb_count: 40 };
    let next = trial_step(st, &mut d, GoalKind::All, &samples, &[0; 5], true).unwrap();
    // Three red draws kept (13 orbs); one other top-tier item: pity 27 + 3 - 20,
    // and a third charge.
    assert_eq!(next.orb_count, 53);
    assert_eq!(next.pity_count, 10);
    assert_eq!(next.focus_charges, 3);
    assert_eq!(d.outstanding(Color::Red), &vec![2]);
}

#[test]
fn trial_step_stops_past_the_largest_cost() {
    let g = CustomGoal { kind: GoalKind::All, goals: vec![part(Color::Red, 1)] };
    let mut d = GoalData::new(&g);
    let samples = [(Pool::Threestar, Color::Blue); 5];
    let st = TrialState { pity_count: 0, focus_charges: 0, orb_count: u32::MAX - 4 };
    assert!(trial_step(st, &mut d, GoalKind::All, &samples, &[0; 5], false).is_none());
    let st = TrialState { pity_count: 0, focus_charges: 0, orb_count: u32::MAX - 5 };
    let next = trial_step(st, &mut d, GoalKind::All, &samples, &[0; 5], false).unwrap();
    assert_eq!(next.orb_count, u32::MAX);
    assert_eq!(next.pity_count, 1);
}
