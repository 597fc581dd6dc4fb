//! Goals: what a run of sessions tries to obtain.

use crate::banner::Banner;
use crate::Color;
use vstd::prelude::*;

verus! {

/// Pre-set options for common goals.
#[derive(Copy, Clone, PartialEq, Eq, Structural, Debug)]
pub enum GoalPreset {
    AnyFocus,
    AllFocus,
    RedFocus,
    AnyRed,
    RedFourstarFocus,
    BlueFocus,
    AnyBlue,
    BlueFourstarFocus,
    GreenFocus,
    AnyGreen,
    GreenFourstarFocus,
    ColorlessFocus,
    AnyColorless,
    ColorlessFourstarFocus,
}

/// Whether the goal is to achieve all of the goal parts or just a single one.
#[derive(Copy, Clone, PartialEq, Eq, Structural, Debug)]
pub enum GoalKind {
    Any,
    All,
}

/// A single item that the goal is trying to obtain.
#[derive(Copy, Clone, PartialEq, Eq, Structural, Debug)]
pub struct GoalPart {
    pub unit_color: Color,
    pub num_copies: u8,
    pub four_star: bool,
}

/// The flexible representation of a goal.
#[derive(Debug)]
pub struct CustomGoal {
    pub kind: GoalKind,
    pub goals: Vec<GoalPart>,
}

/// The goal of a summoning session.
#[derive(Debug)]
pub enum Goal {
    Custom(CustomGoal),
    Preset(GoalPreset, u8),
}

/// `n` parts for one color, each asking for `copies` copies (none when `n`
/// is not positive).
pub open spec fn repeat_part(color: Color, n: int, copies: u8, four_star: bool) -> Seq<GoalPart> {
    Seq::new(
        if n > 0 {
            n as nat
        } else {
            0
        },
        |_i: int| GoalPart { unit_color: color, num_copies: copies, four_star },
    )
}

impl GoalPreset {
    /// The preset stands for exactly one item.
    pub open spec fn spec_is_single_target(self) -> bool {
        match self {
            GoalPreset::RedFocus | GoalPreset::BlueFocus | GoalPreset::GreenFocus
            | GoalPreset::ColorlessFocus | GoalPreset::RedFourstarFocus
            | GoalPreset::BlueFourstarFocus | GoalPreset::GreenFourstarFocus
            | GoalPreset::ColorlessFourstarFocus => true,
            _ => false,
        }
    }

    /// The color that a single-color preset is about.
    pub open spec fn spec_color(self) -> Option<Color> {
        match self {
            GoalPreset::RedFocus | GoalPreset::AnyRed | GoalPreset::RedFourstarFocus => Some(
                Color::Red,
            ),
            GoalPreset::BlueFocus | GoalPreset::AnyBlue | GoalPreset::BlueFourstarFocus => Some(
                Color::Blue,
            ),
            GoalPreset::GreenFocus | GoalPreset::AnyGreen | GoalPreset::GreenFourstarFocus => Some(
                Color::Green,
            ),
            GoalPreset::ColorlessFocus | GoalPreset::AnyColorless
            | GoalPreset::ColorlessFourstarFocus => Some(Color::Colorless),
            _ => None,
        }
    }

    /// The preset asks for the designated bonus item of a color.
    pub open spec fn spec_is_fourstar(self) -> bool {
        match self {
            GoalPreset::RedFourstarFocus | GoalPreset::BlueFourstarFocus
            | GoalPreset::GreenFourstarFocus | GoalPreset::ColorlessFourstarFocus => true,
            _ => false,
        }
    }

    /// The preset can be achieved on the banner.
    pub open spec fn spec_is_available(self, b: Banner) -> bool {
        match self.spec_color() {
            None => exists|c: int| 0 <= c < 4 && b.focus_size(c) > 0,
            Some(c) => b.focus_size(c.spec_index()) > 0 && (self.spec_is_fourstar()
                ==> b.fourstar_focus == Some(c)),
        }
    }

    /// Determines whether or not the selected preset is a goal that it is
    /// possible to achieve on the banner.
    pub fn is_available(self, banner: &Banner) -> (r: bool)
        ensures
            r == self.spec_is_available(*banner),
    {
        let s = banner.focus_sizes;
        match self.color() {
            None => {
                proof {
                    if exists|c: int| 0 <= c < 4 && banner.focus_size(c) > 0 {
                        let c = choose|c: int| 0 <= c < 4 && banner.focus_size(c) > 0;
                        assert(c == 0 || c == 1 || c == 2 || c == 3);
                    }
                    if s[0] > 0 {
                        assert(banner.focus_size(0) > 0);
                    }
                    if s[1] > 0 {
                        assert(banner.focus_size(1) > 0);
                    }
                    if s[2] > 0 {
                        assert(banner.focus_size(2) > 0);
                    }
                    if s[3] > 0 {
                        assert(banner.focus_size(3) > 0);
                    }
                }
                s[0] > 0 || s[1] > 0 || s[2] > 0 || s[3] > 0
            },
            Some(c) => {
                let has_focus = s[c.index()] > 0;
                if self.is_fourstar() {
                    has_focus && match banner.fourstar_focus {
                        Some(f) => f == c,
                        None => false,
                    }
                } else {
                    has_focus
                }
            },
        }
    }

    /// Says whether or not the preset has only a single item that counts for
    /// completing the goal.
    pub fn is_single_target(&self) -> (r: bool)
        ensures
            r == self.spec_is_single_target(),
    {
        match self {
            GoalPreset::RedFocus | GoalPreset::BlueFocus | GoalPreset::GreenFocus
            | GoalPreset::ColorlessFocus | GoalPreset::RedFourstarFocus
            | GoalPreset::BlueFourstarFocus | GoalPreset::GreenFourstarFocus
            | GoalPreset::ColorlessFourstarFocus => true,
            _ => false,
        }
    }

    /// The color that a single-color preset is about.
    pub fn color(self) -> (r: Option<Color>)
        ensures
            r == self.spec_color(),
    {
        match self {
            GoalPreset::RedFocus | GoalPreset::AnyRed | GoalPreset::RedFourstarFocus => Some(
                Color::Red,
            ),
            GoalPreset::BlueFocus | GoalPreset::AnyBlue | GoalPreset::BlueFourstarFocus => Some(
                Color::Blue,
            ),
            GoalPreset::GreenFocus | GoalPreset::AnyGreen | GoalPreset::GreenFourstarFocus => Some(
                Color::Green,
            ),
            GoalPreset::ColorlessFocus | GoalPreset::AnyColorless
            | GoalPreset::ColorlessFourstarFocus => Some(Color::Colorless),
            _ => None,
        }
    }

    /// Whether the preset asks for the designated bonus item of a color.
    pub fn is_fourstar(self) -> (r: bool)
        ensures
            r == self.spec_is_fourstar(),
    {
        match self {
            GoalPreset::RedFourstarFocus | GoalPreset::BlueFourstarFocus
            | GoalPreset::GreenFourstarFocus | GoalPreset::ColorlessFourstarFocus => true,
            _ => false,
        }
    }

    /// A description of the preset for people.
    pub fn label(self) -> &'static str {
        match self {
            GoalPreset::AnyFocus => "Any 5* focus unit",
            GoalPreset::AllFocus => "All focus units",
            GoalPreset::RedFocus => "Specific red 5* focus unit",
            GoalPreset::RedFourstarFocus => "The red 4* focus unit",
            GoalPreset::AnyRed => "Any red 5* focus unit",
            GoalPreset::BlueFocus => "Specific blue 5* focus unit",
            GoalPreset::BlueFourstarFocus => "The blue 4* focus unit",
            GoalPreset::AnyBlue => "Any blue 5* focus unit",
            GoalPreset::GreenFocus => "Specific green 5* focus unit",
            GoalPreset::GreenFourstarFocus => "The green 4* focus unit",
            GoalPreset::AnyGreen => "Any green 5* focus unit",
            GoalPreset::ColorlessFocus => "Specific colorless 5* focus unit",
            GoalPreset::AnyColorless => "Any colorless 5* focus unit",
            GoalPreset::ColorlessFourstarFocus => "The colorless 4* focus unit",
        }
    }

    /// The preset's position in the list of presets.
    pub open spec fn spec_number(self) -> int {
        match self {
            GoalPreset::AnyFocus => 0,
            GoalPreset::AllFocus => 1,
            GoalPreset::RedFocus => 2,
            GoalPreset::AnyRed => 3,
            GoalPreset::RedFourstarFocus => 4,
            GoalPreset::BlueFocus => 5,
            GoalPreset::AnyBlue => 6,
            GoalPreset::BlueFourstarFocus => 7,
            GoalPreset::GreenFocus => 8,
            GoalPreset::AnyGreen => 9,
            GoalPreset::GreenFourstarFocus => 10,
            GoalPreset::ColorlessFocus => 11,
            GoalPreset::AnyColorless => 12,
            GoalPreset::ColorlessFourstarFocus => 13,
        }
    }

    /// The preset at a position of the list of presets, if there is one.
    pub fn from_u8(value: u8) -> (r: Option<GoalPreset>)
        ensures
            r.is_none() <==> value >= 14,
            r matches Some(p) ==> p.spec_number() == value,
    {
        match value {
            0 => Some(GoalPreset::AnyFocus),
            1 => Some(GoalPreset::AllFocus),
            2 => Some(GoalPreset::RedFocus),
            3 => Some(GoalPreset::AnyRed),
            4 => Some(GoalPreset::RedFourstarFocus),
            5 => Some(GoalPreset::BlueFocus),
            6 => Some(GoalPreset::AnyBlue),
            7 => Some(GoalPreset::BlueFourstarFocus),
            8 => Some(GoalPreset::GreenFocus),
            9 => Some(GoalPreset::AnyGreen),
            10 => Some(GoalPreset::GreenFourstarFocus),
            11 => Some(GoalPreset::ColorlessFocus),
            12 => Some(GoalPreset::AnyColorless),
            13 => Some(GoalPreset::ColorlessFourstarFocus),
            _ => None,
        }
    }
}

/// The kind of goal that a preset converts into.
pub open spec fn preset_kind(p: GoalPreset) -> GoalKind {
    if p == GoalPreset::AllFocus {
        GoalKind::All
    } else {
        GoalKind::Any
    }
}

/// Copies asked of each part of a converted preset: the preset's count (at
/// least one) for a single item, else one.
pub open spec fn preset_copies(p: GoalPreset, count: u8) -> u8 {
    if p.spec_is_single_target() {
        if count >= 1 {
            count
        } else {
            1
        }
    } else {
        1
    }
}

/// The parts of the custom goal that a preset converts into: one for each
/// focus item that the preset accepts.
pub open spec fn preset_parts(p: GoalPreset, count: u8, b: Banner) -> Seq<GoalPart> {
    let k = preset_copies(p, count);
    match p.spec_color() {
        None => repeat_part(Color::Red, b.focus_size(0), k, false) + repeat_part(
            Color::Blue,
            b.focus_size(1),
            k,
            false,
        ) + repeat_part(Color::Green, b.focus_size(2), k, false) + repeat_part(
            Color::Colorless,
            b.focus_size(3),
            k,
            false,
        ),
        Some(c) => if p.spec_is_single_target() {
            seq![GoalPart { unit_color: c, num_copies: k, four_star: p.spec_is_fourstar() }]
        } else {
            repeat_part(c, b.focus_size(c.spec_index()), k, false)
        },
    }
}

/// Appends `n` parts for one color.
fn push_parts(goals: &mut Vec<GoalPart>, color: Color, n: i8, copies: u8, four_star: bool)
    ensures
        final(goals)@ == old(goals)@ + repeat_part(color, n as int, copies, four_star),
{
    let part = GoalPart { unit_color: color, num_copies: copies, four_star };
    let mut k: i8 = 0;
    while k < n
        invariant
            0 <= k,
            k <= n || n <= 0,
            n <= 0 ==> k == 0,
            part == (GoalPart { unit_color: color, num_copies: copies, four_star }),
            goals@ == old(goals)@ + repeat_part(color, k as int, copies, four_star),
        decreases n - k,
    {
        proof {
            assert(repeat_part(color, k + 1, copies, four_star) =~= repeat_part(
                color,
                k as int,
                copies,
                four_star,
            ).push(part));
        }
        goals.push(part);
        k = k + 1;
        assert(goals@ =~= old(goals)@ + repeat_part(color, k as int, copies, four_star));
    }
    assert(repeat_part(color, k as int, copies, four_star) =~= repeat_part(
        color,
        n as int,
        copies,
        four_star,
    ));
}

/// Some part's color has focus items on the banner.
pub open spec fn some_part_available(parts: Seq<GoalPart>, b: Banner) -> bool {
    exists|i: int| 0 <= i < parts.len() && b.focus_size(parts[i].unit_color.spec_index()) > 0
}

/// Every part's color has focus items on the banner.
pub open spec fn every_part_available(parts: Seq<GoalPart>, b: Banner) -> bool {
    forall|i: int| 0 <= i < parts.len() ==> b.focus_size(parts[i].unit_color.spec_index()) > 0
}

/// A goal of this kind and these parts can be met on the banner: it has a
/// part, and the parts it needs have items to draw (all of them for an
/// `All` goal, one for an `Any` goal).
pub open spec fn parts_available(kind: GoalKind, parts: Seq<GoalPart>, b: Banner) -> bool {
    &&& parts.len() > 0
    &&& match kind {
        GoalKind::All => every_part_available(parts, b),
        GoalKind::Any => some_part_available(parts, b),
    }
}

impl CustomGoal {
    /// The goal can be met on the banner.
    pub open spec fn spec_is_available(self, b: Banner) -> bool {
        parts_available(self.kind, self.goals@, b)
    }

    /// Decides whether the goal can be met on the banner.
    pub fn is_available(&self, banner: &Banner) -> (r: bool)
        ensures
            r == self.spec_is_available(*banner),
    {
        let n = self.goals.len();
        if n == 0 {
            return false;
        }
        let mut some = false;
        let mut every = true;
        let mut i: usize = 0;
        while i < n
            invariant
                n == self.goals@.len(),
                i <= n,
                some == exists|j: int|
                    0 <= j < i && banner.focus_size(self.goals@[j].unit_color.spec_index()) > 0,
                every == forall|j: int|
                    0 <= j < i ==> banner.focus_size(self.goals@[j].unit_color.spec_index()) > 0,
            decreases n - i,
        {
            let ok = banner.focus_sizes[self.goals[i].unit_color.index()] > 0;
            some = some || ok;
            every = every && ok;
            i = i + 1;
        }
        match self.kind {
            GoalKind::All => every,
            GoalKind::Any => some,
        }
    }
}

/// Copies the parts one by one.
fn copy_parts(parts: &Vec<GoalPart>) -> (r: Vec<GoalPart>)
    ensures
        r@ == parts@,
{
    let mut r: Vec<GoalPart> = Vec::new();
    let mut i: usize = 0;
    while i < parts.len()
        invariant
            i <= parts@.len(),
            r@ == parts@.subrange(0, i as int),
        decreases parts@.len() - i,
    {
        r.push(parts[i]);
        i = i + 1;
        assert(r@ =~= parts@.subrange(0, i as int));
    }
    assert(r@ =~= parts@);
    r
}

impl Goal {
    /// The kind of the custom goal that the goal stands for on the banner.
    pub open spec fn spec_custom_kind(&self) -> GoalKind {
        match self {
            Goal::Custom(c) => c.kind,
            Goal::Preset(p, _) => preset_kind(*p),
        }
    }

    /// The parts of the custom goal that the goal stands for on the banner.
    pub open spec fn spec_custom_parts(&self, b: Banner) -> Seq<GoalPart> {
        match self {
            Goal::Custom(c) => c.goals@,
            Goal::Preset(p, n) => preset_parts(*p, *n, b),
        }
    }

    /// The goal can be met on the banner.
    pub open spec fn spec_is_available(&self, b: Banner) -> bool {
        match self {
            Goal::Custom(c) => c.spec_is_available(b),
            Goal::Preset(p, _) => p.spec_is_available(b),
        }
    }

    /// Converts the current preset into a custom goal or retrieves the
    /// current custom goal.
    pub fn as_custom(&self, banner: &Banner) -> (r: CustomGoal)
        ensures
            r.kind == self.spec_custom_kind(),
            r.goals@ == self.spec_custom_parts(*banner),
    {
        let (preset, count) = match self {
            Goal::Preset(preset, count) => (*preset, *count),
            Goal::Custom(custom) => {
                return CustomGoal { kind: custom.kind, goals: copy_parts(&custom.goals) };
            },
        };
        let copies = if preset.is_single_target() {
            if count >= 1 {
                count
            } else {
                1
            }
        } else {
            1
        };
        let kind = if preset == GoalPreset::AllFocus {
            GoalKind::All
        } else {
            GoalKind::Any
        };
        let mut goals: Vec<GoalPart> = Vec::new();
        let s = banner.focus_sizes;
        match preset.color() {
            None => {
                push_parts(&mut goals, Color::Red, s[0], copies, false);
                push_parts(&mut goals, Color::Blue, s[1], copies, false);
                push_parts(&mut goals, Color::Green, s[2], copies, false);
                push_parts(&mut goals, Color::Colorless, s[3], copies, false);
                assert(goals@ =~= preset_parts(preset, count, *banner));
            },
            Some(c) => {
                if preset.is_single_target() {
                    goals.push(
                        GoalPart { unit_color: c, num_copies: copies, four_star: preset.is_fourstar() },
                    );
                    assert(goals@ =~= preset_parts(preset, count, *banner));
                } else {
                    push_parts(&mut goals, c, s[c.index()], copies, false);
                    assert(goals@ =~= preset_parts(preset, count, *banner));
                }
            },
        }
        CustomGoal { kind, goals }
    }

    /// Checks whether or not the goal is possible on the given banner.
    pub fn is_available(&self, banner: &Banner) -> (r: bool)
        ensures
            r == self.spec_is_available(*banner),
    {
        match self {
            Goal::Custom(custom_goal) => custom_goal.is_available(banner),
            Goal::Preset(preset, _) => preset.is_available(banner),
        }
    }
}

/// The parts of a repeated target all have its color.
proof fn lemma_repeat_colors(color: Color, n: int, copies: u8, four_star: bool)
    ensures
        forall|i: int|
            0 <= i < repeat_part(color, n, copies, four_star).len() ==> (#[trigger] repeat_part(
                color,
                n,
                copies,
                four_star,
            )[i]).unit_color == color,
        repeat_part(color, n, copies, four_star).len() > 0 ==> n > 0,
        n > 0 ==> repeat_part(color, n, copies, four_star).len() == n,
{
}

/// A goal that can be met on the banner converts into a custom goal that
/// can be met on it.
pub proof fn lemma_custom_available(goal: &Goal, b: Banner)
    requires
        b.wf(),
        goal.spec_is_available(b),
    ensures
        parts_available(goal.spec_custom_kind(), goal.spec_custom_parts(b), b),
{
    match goal {
        Goal::Custom(_) => {},
        Goal::Preset(p, n) => {
            let parts = goal.spec_custom_parts(b);
            let k = preset_copies(*p, *n);
            match p.spec_color() {
                None => {
                    let r0 = repeat_part(Color::Red, b.focus_size(0), k, false);
                    let r1 = repeat_part(Color::Blue, b.focus_size(1), k, false);
                    let r2 = repeat_part(Color::Green, b.focus_size(2), k, false);
                    let r3 = repeat_part(Color::Colorless, b.focus_size(3), k, false);
                    lemma_repeat_colors(Color::Red, b.focus_size(0), k, false);
                    lemma_repeat_colors(Color::Blue, b.focus_size(1), k, false);
                    lemma_repeat_colors(Color::Green, b.focus_size(2), k, false);
                    lemma_repeat_colors(Color::Colorless, b.focus_size(3), k, false);
                    assert(parts == r0 + r1 + r2 + r3);
                    let (a, c, d) = (r0.len() as int, r1.len() as int, r2.len() as int);
                    assert forall|i: int| 0 <= i < parts.len() implies b.focus_size(
                        parts[i].unit_color.spec_index(),
                    ) > 0 by {
                        if i < a {
                            assert(parts[i] == r0[i]);
                        } else if i < a + c {
                            assert(parts[i] == r1[i - a]);
                        } else if i < a + c + d {
                            assert(parts[i] == r2[i - a - c]);
                        } else {
                            assert(parts[i] == r3[i - a - c - d]);
                        }
                    }
                    let w = choose|w: int| 0 <= w < 4 && b.focus_size(w) > 0;
                    let at = if w == 0 {
                        0
                    } else if w == 1 {
                        a
                    } else if w == 2 {
                        a + c
                    } else {
                        a + c + d
                    };
                    if w == 0 {
                        assert(parts[at] == r0[0]);
                    } else if w == 1 {
                        assert(parts[at] == r1[0]);
                    } else if w == 2 {
                        assert(parts[at] == r2[0]);
                    } else {
                        assert(parts[at] == r3[0]);
                    }
                    assert(0 <= at < parts.len());
                },
                Some(c) => {
                    if p.spec_is_single_target() {
                        assert(parts[0].unit_color == c);
                    } else {
                        lemma_repeat_colors(c, b.focus_size(c.spec_index()), k, false);
                        assert(parts[0].unit_color == c);
                    }
                },
            }
        },
    }
}

impl Default for Goal {
    fn default() -> (r: Self)
        ensures
            r == Goal::Preset(GoalPreset::AnyFocus, 1),
    {
        Goal::Preset(GoalPreset::AnyFocus, 1)
    }
}

} // verus!
