use fehstatsim::banner::Banner;
use fehstatsim::goal::{CustomGoal, Goal, GoalKind, GoalPart, GoalPreset};
use fehstatsim::goal_data::GoalData;
use fehstatsim::{Color, Pool};

fn banner(sizes: [i8; 4]) -> Banner {
    Banner { focus_sizes: sizes, starting_rates: (3, 3), focus_charges: false, fourstar_focus: None }
}

fn part(color: Color, copies: u8) -> GoalPart {
    GoalPart { unit_color: color, num_copies: copies, four_star: false }
}

fn custom(kind: GoalKind, parts: Vec<GoalPart>) -> CustomGoal {
    CustomGoal { kind, goals: parts }
}

#[test]
fn preset_all_focus_lists_every_focus_item() {
    let b = banner([2, 0, 1, 1]);
    let c = Goal::Preset(GoalPreset::AllFocus, 4).as_custom(&b);
    assert_eq!(c.kind, GoalKind::All);
    assert_eq!(
        c.goals,
        vec![part(Color::Red, 1), part(Color::Red, 1), part(Color::Green, 1), part(Color::Colorless, 1)]
    );
}

#[test]
fn preset_single_target_keeps_count() {
    let b = banner([2, 1, 1, 1]);
    let c = Goal::Preset(GoalPreset::BlueFocus, 3).as_custom(&b);
    assert_eq!(c.kind, GoalKind::Any);
    assert_eq!(c.goals, vec![part(Color::Blue, 3)]);
    let c = Goal::Preset(GoalPreset::RedFocus, 0).as_custom(&b);
    assert_eq!(c.goals, vec![part(Color::Red, 1)]);
    let c = Goal::Preset(GoalPreset::GreenFourstarFocus, 2).as_custom(&b);
    assert_eq!(c.goals, vec![GoalPart { unit_color: Color::Green, num_copies: 2, four_star: true }]);
}

#[test]
fn preset_any_color_lists_that_color() {
    let b = banner([3, 1, 0, 1]);
    let c = Goal::Preset(GoalPreset::AnyRed, 5).as_custom(&b);
    assert_eq!(c.kind, GoalKind::Any);
    assert_eq!(c.goals, vec![part(Color::Red, 1); 3]);
    let c = Goal::Preset(GoalPreset::AnyGreen, 1).as_custom(&b);
    assert!(c.goals.is_empty());
}

#[test]
fn custom_goal_is_copied() {
    let b = banner([1, 1, 1, 1]);
    let g = Goal::Custom(custom(GoalKind::All, vec![part(Color::Blue, 2), part(Color::Red, 1)]));
    let c = g.as_custom(&b);
    assert_eq!(c.kind, GoalKind::All);
    assert_eq!(c.goals, vec![part(Color::Blue, 2), part(Color::Red, 1)]);
}

#[test]
fn availability() {
    let b = banner([1, 0, 0, 0]);
    assert!(GoalPreset::AnyFocus.is_available(&b));
    assert!(GoalPreset::RedFocus.is_available(&b));
    assert!(!GoalPreset::BlueFocus.is_available(&b));
    assert!(!GoalPreset::RedFourstarFocus.is_available(&b));
    let mut b4 = b;
    b4.fourstar_focus = Some(Color::Red);
    assert!(GoalPreset::RedFourstarFocus.is_available(&b4));
    assert!(!banner([0, 0, 0, 0]).is_valid());
    assert!(!GoalPreset::AnyFocus.is_available(&banner([0, 0, 0, 0])));
    let all = Goal::Custom(custom(GoalKind::All, vec![part(Color::Red, 1), part(Color::Blue, 1)]));
    let any = Goal::Custom(custom(GoalKind::Any, vec![part(Color::Red, 1), part(Color::Blue, 1)]));
    assert!(!all.is_available(&b));
    assert!(any.is_available(&b));
    assert!(!Goal::Custom(custom(GoalKind::Any, vec![])).is_available(&b));
    assert!(Goal::default().is_available(&b));
}

#[test]
fn preset_numbers_and_labels() {
    assert_eq!(GoalPreset::from_u8(0), Some(GoalPreset::AnyFocus));
    assert_eq!(GoalPreset::from_u8(13), Some(GoalPreset::ColorlessFourstarFocus));
    assert_eq!(GoalPreset::from_u8(14), None);
    assert_eq!(GoalPreset::AllFocus.label(), "All focus units");
    assert_eq!(Color::from_u8(2), Some(Color::Green));
    assert_eq!(Color::from_u8(4), None);
    assert_eq!(Pool::from_u8(5), Some(Pool::Threestar));
    assert_eq!(Pool::from_u8(6), None);
}

#[test]
fn goal_data_tracks_parts_by_color() {
    let g = custom(GoalKind::All, vec![part(Color::Red, 2), part(Color::Blue, 1), part(Color::Red, 3)]);
    let d = GoalData::new(&g);
    assert_eq!(d.outstanding(Color::Red), &vec![2, 3]);
    assert_eq!(d.outstanding(Color::Blue), &vec![1]);
    assert!(d.outstanding(Color::Green).is_empty());
    assert!(d.may_match_goal(Color::Red));
    assert!(!d.may_match_goal(Color::Colorless));
    assert!(!d.is_met());
    assert!(!d.fourstar_goal());
}

#[test]
fn all_goal_needs_every_color() {
    let g = custom(
        GoalKind::All,
        vec![part(Color::Red, 1), part(Color::Blue, 1), part(Color::Green, 1)],
    );
    let mut d = GoalData::new(&g);
    d.pull(GoalKind::All, Pool::Focus, Color::Red, 0);
    assert!(!d.is_met());
    assert!(!d.may_match_goal(Color::Red));
    assert_eq!(d.outstanding(Color::Blue), &vec![1]);
    d.pull(GoalKind::All, Pool::Focus, Color::Green, 0);
    assert!(!d.is_met());
    d.pull(GoalKind::All, Pool::Focus, Color::Blue, 0);
    assert!(d.is_met());
}

#[test]
fn any_goal_met_by_first_target() {
    let g = custom(
        GoalKind::Any,
        vec![part(Color::Red, 1), part(Color::Blue, 2), part(Color::Green, 1)],
    );
    let mut d = GoalData::new(&g);
    d.pull(GoalKind::Any, Pool::Focus, Color::Blue, 0);
    assert!(!d.is_met());
    assert_eq!(d.outstanding(Color::Blue), &vec![1]);
    d.pull(GoalKind::Any, Pool::Focus, Color::Red, 0);
    assert!(d.is_met());
    assert!(d.outstanding(Color::Blue).is_empty());
    assert!(d.outstanding(Color::Green).is_empty());
}

#[test]
fn draws_that_do_not_count() {
    let g = custom(GoalKind::All, vec![part(Color::Red, 1)]);
    let mut d = GoalData::new(&g);
    // Another focus item of the same color.
    d.pull(GoalKind::All, Pool::Focus, Color::Red, 1);
    // Lower tiers and other top-tier items.
    d.pull(GoalKind::All, Pool::Fivestar, Color::Red, 0);
    d.pull(GoalKind::All, Pool::Fourstar, Color::Red, 0);
    // A bonus item while the goal asks for none.
    d.pull(GoalKind::All, Pool::FourstarFocus, Color::Red, 0);
    assert_eq!(d.outstanding(Color::Red), &vec![1]);
    d.pull(GoalKind::All, Pool::Focus, Color::Red, 0);
    assert!(d.is_met());
}

#[test]
fn bonus_item_matches_first_target() {
    let g = custom(
        GoalKind::Any,
        vec![GoalPart { unit_color: Color::Blue, num_copies: 2, four_star: true }],
    );
    let mut d = GoalData::new(&g);
    assert!(d.fourstar_goal());
    d.pull(GoalKind::Any, Pool::FourstarFocus, Color::Blue, 3);
    assert_eq!(d.outstanding(Color::Blue), &vec![1]);
    d.pull(GoalKind::Any, Pool::FourstarFocus, Color::Blue, 0);
    assert!(d.is_met());
}
