//! The configuration of a summoning banner.

use crate::Color;
use vstd::prelude::*;

verus! {

/// The largest combined top-tier rate, in percentage points, that leaves the
/// lower tiers enough mass for every pity step below the guaranteed draw.
pub const MAX_TOP_RATE: u8 = 88;

/// Representation of a summoning focus.
#[derive(Copy, Clone, PartialEq, Eq, Debug)]
pub struct Banner {
    /// Number of focus items of each color.
    pub focus_sizes: [i8; 4],
    /// The focus rate and the other top-tier rate, in percentage points.
    pub starting_rates: (u8, u8),
    /// Whether misses on the top tier charge up a guaranteed focus draw.
    pub focus_charges: bool,
    /// The color of the designated bonus item of the secondary tier, if any.
    pub fourstar_focus: Option<Color>,
}

impl Banner {
    /// Number of focus items of a color, as an integer.
    pub open spec fn focus_size(self, c: int) -> int {
        self.focus_sizes@[c] as int
    }

    /// The banner can be simulated: no negative focus counts, at least one
    /// focus item, and a top-tier rate that is positive and within
    /// `MAX_TOP_RATE`.
    pub open spec fn wf(self) -> bool {
        &&& forall|c: int| 0 <= c < 4 ==> self.focus_size(c) >= 0
        &&& self.focus_size(0) + self.focus_size(1) + self.focus_size(2) + self.focus_size(3) > 0
        &&& self.starting_rates.0 + self.starting_rates.1 >= 1
        &&& self.starting_rates.0 + self.starting_rates.1 <= MAX_TOP_RATE
    }

    /// Decides whether the banner can be simulated.
    pub fn is_valid(&self) -> (r: bool)
        ensures
            r == self.wf(),
    {
        let s = self.focus_sizes;
        let (focus, other) = self.starting_rates;
        s[0] >= 0 && s[1] >= 0 && s[2] >= 0 && s[3] >= 0
            && (s[0] as i32 + s[1] as i32 + s[2] as i32 + s[3] as i32) > 0
            && (focus as u32 + other as u32) >= 1
            && (focus as u32 + other as u32) <= MAX_TOP_RATE as u32
    }
}

impl Default for Banner {
    fn default() -> (r: Self)
        ensures
            r.focus_sizes@ == seq![1i8, 1i8, 1i8, 1i8],
            r.starting_rates == (3u8, 3u8),
            r.focus_charges,
            r.fourstar_focus.is_none(),
    {
        let r = Banner {
            focus_sizes: [1, 1, 1, 1],
            starting_rates: (3, 3),
            focus_charges: true,
            fourstar_focus: None,
        };
        assert(r.focus_sizes@ =~= seq![1i8, 1i8, 1i8, 1i8]);
        r
    }
}

} // verus!
