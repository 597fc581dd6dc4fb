//! Cost simulation for repeated multi-draw summoning sessions.
//!
//! The library models a tiered item pool whose top-tier odds rise with
//! "pity", draws sessions of five items from it, tracks progress towards a
//! goal, and aggregates the cost of many trials into a histogram.

use vstd::prelude::*;

pub mod banner;
pub mod counter;
pub mod goal;
pub mod goal_data;
pub mod rates;
pub mod rng;
pub mod sim;
pub mod stats;
pub mod weighted_choice;

verus! {

/// The four item colors of the pool.
#[derive(Copy, Clone, PartialEq, Eq, Structural, Debug)]
pub enum Color {
    Red,
    Blue,
    Green,
    Colorless,
}

/// Number of colors.
pub const NUM_COLORS: usize = 4;

/// The tiers of the pool, from the rate-up tier down to the commonest one.
#[derive(Copy, Clone, PartialEq, Eq, Structural, Debug)]
pub enum Pool {
    Focus,
    Fivestar,
    FourstarFocus,
    FourstarSpecial,
    Fourstar,
    Threestar,
}

/// Number of tiers.
pub const NUM_POOLS: usize = 6;

impl Color {
    /// Position of the color in per-color arrays.
    pub open spec fn spec_index(self) -> int {
        match self {
            Color::Red => 0,
            Color::Blue => 1,
            Color::Green => 2,
            Color::Colorless => 3,
        }
    }

    /// The color at a position of per-color arrays.
    pub open spec fn spec_from_index(i: int) -> Color {
        if i == 0 {
            Color::Red
        } else if i == 1 {
            Color::Blue
        } else if i == 2 {
            Color::Green
        } else {
            Color::Colorless
        }
    }

    pub fn index(self) -> (r: usize)
        ensures
            r == self.spec_index(),
            r < NUM_COLORS,
    {
        match self {
            Color::Red => 0,
            Color::Blue => 1,
            Color::Green => 2,
            Color::Colorless => 3,
        }
    }

    /// The color at a position of per-color arrays.
    pub fn from_index(i: usize) -> (r: Color)
        requires
            i < NUM_COLORS,
        ensures
            r == Color::spec_from_index(i as int),
            r.spec_index() == i,
    {
        match i {
            0 => Color::Red,
            1 => Color::Blue,
            2 => Color::Green,
            _ => Color::Colorless,
        }
    }

    /// The color with the given number, if there is one.
    pub fn from_u8(value: u8) -> (r: Option<Color>)
        ensures
            value < 4 ==> r == Some(Color::spec_from_index(value as int)),
            value >= 4 ==> r.is_none(),
    {
        match value {
            0 => Some(Color::Red),
            1 => Some(Color::Blue),
            2 => Some(Color::Green),
            3 => Some(Color::Colorless),
            _ => None,
        }
    }

    /// The color's name.
    pub fn name(self) -> (r: &'static str)
    {
        match self {
            Color::Red => "Red",
            Color::Blue => "Blue",
            Color::Green => "Green",
            Color::Colorless => "Colorless",
        }
    }
}

impl Pool {
    /// Position of the tier in per-tier arrays.
    pub open spec fn spec_index(self) -> int {
        match self {
            Pool::Focus => 0,
            Pool::Fivestar => 1,
            Pool::FourstarFocus => 2,
            Pool::FourstarSpecial => 3,
            Pool::Fourstar => 4,
            Pool::Threestar => 5,
        }
    }

    /// The tier at a position of per-tier arrays.
    pub open spec fn spec_from_index(i: int) -> Pool {
        if i == 0 {
            Pool::Focus
        } else if i == 1 {
            Pool::Fivestar
        } else if i == 2 {
            Pool::FourstarFocus
        } else if i == 3 {
            Pool::FourstarSpecial
        } else if i == 4 {
            Pool::Fourstar
        } else {
            Pool::Threestar
        }
    }

    pub fn index(self) -> (r: usize)
        ensures
            r == self.spec_index(),
            r < NUM_POOLS,
    {
        match self {
            Pool::Focus => 0,
            Pool::Fivestar => 1,
            Pool::FourstarFocus => 2,
            Pool::FourstarSpecial => 3,
            Pool::Fourstar => 4,
            Pool::Threestar => 5,
        }
    }

    /// The tier at a position of per-tier arrays.
    pub fn from_index(i: usize) -> (r: Pool)
        requires
            i < NUM_POOLS,
        ensures
            r == Pool::spec_from_index(i as int),
            r.spec_index() == i,
    {
        match i {
            0 => Pool::Focus,
            1 => Pool::Fivestar,
            2 => Pool::FourstarFocus,
            3 => Pool::FourstarSpecial,
            4 => Pool::Fourstar,
            _ => Pool::Threestar,
        }
    }

    /// The tier with the given number, if there is one.
    pub fn from_u8(value: u8) -> (r: Option<Pool>)
        ensures
            value < 6 ==> r == Some(Pool::spec_from_index(value as int)),
            value >= 6 ==> r.is_none(),
    {
        match value {
            0 => Some(Pool::Focus),
            1 => Some(Pool::Fivestar),
            2 => Some(Pool::FourstarFocus),
            3 => Some(Pool::FourstarSpecial),
            4 => Some(Pool::Fourstar),
            5 => Some(Pool::Threestar),
            _ => None,
        }
    }
}

} // verus!
