//! The progress of one trial towards its goal.
//!
//! For each color the automaton keeps the copies still needed of each
//! outstanding target of that color, in the goal's order. A draw of a focus
//! item consumes one copy of the target it turns out to be; a target whose
//! last copy is obtained is removed. For an `Any` goal the first target
//! completed clears every other one.

use crate::goal::{CustomGoal, GoalKind, GoalPart};
use crate::{Color, Pool};
use vstd::prelude::*;

verus! {

/// Copies needed of each target of color `c`, in the order of the parts.
pub open spec fn copies_for(parts: Seq<GoalPart>, c: Color) -> Seq<u8>
    decreases parts.len(),
{
    if parts.len() == 0 {
        Seq::empty()
    } else {
        let rest = copies_for(parts.drop_last(), c);
        if parts.last().unit_color == c {
            rest.push(parts.last().num_copies)
        } else {
            rest
        }
    }
}

/// The outstanding targets at the start of a trial, by color.
pub open spec fn initial_outstanding(parts: Seq<GoalPart>) -> Seq<Seq<u8>> {
    Seq::new(4, |c: int| copies_for(parts, Color::spec_from_index(c)))
}

/// Some part asks for a designated bonus item.
pub open spec fn has_fourstar_part(parts: Seq<GoalPart>) -> bool {
    exists|i: int| 0 <= i < parts.len() && parts[i].four_star
}

/// Nothing is outstanding: the goal is met.
pub open spec fn met(o: Seq<Seq<u8>>) -> bool {
    forall|c: int| 0 <= c < 4 ==> (#[trigger] o[c]).len() == 0
}

/// Four colors with nothing outstanding.
pub open spec fn cleared() -> Seq<Seq<u8>> {
    Seq::new(4, |_c: int| Seq::<u8>::empty())
}

/// The draw can count towards the goal: its color has outstanding targets,
/// and it comes from the focus tier, or is the designated bonus item while
/// the goal asks for one.
pub open spec fn eligible(o: Seq<Seq<u8>>, fourstar_goal: bool, pool: Pool, color: Color) -> bool {
    &&& o[color.spec_index()].len() > 0
    &&& (pool == Pool::Focus || (pool == Pool::FourstarFocus && fourstar_goal))
}

/// Which target of its color a draw is: the first one for the designated
/// bonus item, else the focus item numbered `pick`.
pub open spec fn target_of(pool: Pool, pick: int) -> int {
    if pool == Pool::FourstarFocus {
        0
    } else {
        pick
    }
}

/// The outstanding targets after a draw of `pool` and `color`, where `pick`
/// numbers the focus item of that color that was drawn. Items past the
/// outstanding targets of the color are not wanted.
pub open spec fn pull_outcome(
    o: Seq<Seq<u8>>,
    kind: GoalKind,
    fourstar_goal: bool,
    pool: Pool,
    color: Color,
    pick: int,
) -> Seq<Seq<u8>> {
    let c = color.spec_index();
    let w = target_of(pool, pick);
    if !eligible(o, fourstar_goal, pool, color) || w < 0 || w >= o[c].len() {
        o
    } else if o[c][w] > 1 {
        o.update(c, o[c].update(w, (o[c][w] - 1) as u8))
    } else if kind == GoalKind::Any {
        cleared()
    } else {
        o.update(c, o[c].remove(w))
    }
}

/// Scratch space for representing the goal in a way that is fast to work
/// with during a trial.
#[derive(Debug)]
pub struct GoalData {
    is_fourstar_focus: bool,
    color_needed: [bool; 4],
    copies_needed: Vec<Vec<u8>>,
}

impl View for GoalData {
    type V = Seq<Seq<u8>>;

    /// The copies still needed of each outstanding target, by color.
    closed spec fn view(&self) -> Seq<Seq<u8>> {
        Seq::new(4, |c: int| self.copies_needed@[c]@)
    }
}

impl GoalData {
    pub closed spec fn wf(&self) -> bool {
        &&& self.copies_needed@.len() == 4
        &&& forall|c: int|
            0 <= c < 4 ==> self.color_needed@[c] == (#[trigger] self.copies_needed@[c]@.len() > 0)
    }

    /// Whether the goal asks for a designated bonus item.
    pub closed spec fn spec_fourstar_goal(&self) -> bool {
        self.is_fourstar_focus
    }

    /// The view has one entry per color.
    pub proof fn lemma_view_len(&self)
        ensures
            self@.len() == 4,
    {
    }

    /// Builds the progress of a fresh trial towards the goal.
    pub fn new(goal: &CustomGoal) -> (r: GoalData)
        ensures
            r.wf(),
            r@ == initial_outstanding(goal.goals@),
            r.spec_fourstar_goal() == has_fourstar_part(goal.goals@),
    {
        let parts = &goal.goals;
        let mut copies: Vec<Vec<u8>> = Vec::new();
        copies.push(Vec::new());
        copies.push(Vec::new());
        copies.push(Vec::new());
        copies.push(Vec::new());
        let mut fourstar = false;
        let mut i: usize = 0;
        assert(parts@.subrange(0, 0) =~= Seq::<GoalPart>::empty());
        while i < parts.len()
            invariant
                i <= parts@.len(),
                copies@.len() == 4,
                forall|c: int|
                    0 <= c < 4 ==> (#[trigger] copies@[c])@ == copies_for(
                        parts@.subrange(0, i as int),
                        Color::spec_from_index(c),
                    ),
                fourstar == exists|j: int| 0 <= j < i && parts@[j].four_star,
            decreases parts@.len() - i,
        {
            let part = parts[i];
            let c = part.unit_color.index();
            proof {
                let next = parts@.subrange(0, i + 1);
                assert(next.drop_last() =~= parts@.subrange(0, i as int));
                assert(next.last() == part);
                assert(part.unit_color == Color::spec_from_index(c as int));
            }
            let ghost before = copies@;
            let mut list = copies.remove(c);
            list.push(part.num_copies);
            copies.insert(c, list);
            assert(copies@ =~= before.update(c as int, list));
            if part.four_star {
                fourstar = true;
            }
            i = i + 1;
        }
        assert(parts@.subrange(0, parts@.len() as int) =~= parts@);
        let needed = [copies[0].len() > 0, copies[1].len() > 0, copies[2].len() > 0, copies[3].len()
            > 0];
        let r = GoalData { is_fourstar_focus: fourstar, color_needed: needed, copies_needed: copies };
        assert(r@ =~= initial_outstanding(goal.goals@));
        r
    }

    /// Whether every target has been obtained.
    pub fn is_met(&self) -> (r: bool)
        requires
            self.wf(),
        ensures
            r == met(self@),
    {
        let r = !self.color_needed[0] && !self.color_needed[1] && !self.color_needed[2]
            && !self.color_needed[3];
        proof {
            if r {
                assert forall|c: int| 0 <= c < 4 implies (#[trigger] self@[c]).len() == 0 by {
                    assert(self.color_needed@[c] == false);
                }
            } else {
                assert(!met(self@)) by {
                    if met(self@) {
                        assert(self@[0].len() == 0);
                        assert(self@[1].len() == 0);
                        assert(self@[2].len() == 0);
                        assert(self@[3].len() == 0);
                    }
                }
            }
        }
        r
    }

    /// Whether the color has outstanding targets, so that a draw of it may
    /// count towards the goal.
    pub fn may_match_goal(&self, color: Color) -> (r: bool)
        requires
            self.wf(),
        ensures
            r == (self@[color.spec_index()].len() > 0),
    {
        self.color_needed[color.index()]
    }

    /// The copies still needed of each outstanding target of the color.
    pub fn outstanding(&self, color: Color) -> (r: &Vec<u8>)
        requires
            self.wf(),
        ensures
            r@ == self@[color.spec_index()],
    {
        &self.copies_needed[color.index()]
    }

    /// Whether the goal asks for a designated bonus item.
    pub fn fourstar_goal(&self) -> (r: bool)
        ensures
            r == self.spec_fourstar_goal(),
    {
        self.is_fourstar_focus
    }

    /// Applies a draw of `pool` and `color` to the goal; `pick` numbers the
    /// focus item of that color that was drawn.
    pub fn pull(&mut self, kind: GoalKind, pool: Pool, color: Color, pick: usize)
        requires
            old(self).wf(),
        ensures
            final(self).wf(),
            final(self)@ == pull_outcome(
                old(self)@,
                kind,
                old(self).spec_fourstar_goal(),
                pool,
                color,
                pick as int,
            ),
            final(self).spec_fourstar_goal() == old(self).spec_fourstar_goal(),
    {
        let c = color.index();
        let eligible = self.color_needed[c] && (pool == Pool::Focus || (pool == Pool::FourstarFocus
            && self.is_fourstar_focus));
        let which: usize = if pool == Pool::FourstarFocus {
            0
        } else {
            pick
        };
        if !eligible || which >= self.copies_needed[c].len() {
            return ;
        }
        let ghost before = self@;
        let mut list = self.copies_needed.remove(c);
        let copies = list[which];
        if copies > 1 {
            list.set(which, copies - 1);
            self.copies_needed.insert(c, list);
            assert(self@ =~= before.update(c as int, before[c as int].update(which as int, (copies - 1) as u8)));
        } else {
            list.remove(which);
            match kind {
                GoalKind::Any => {
                    let mut cleared_lists: Vec<Vec<u8>> = Vec::new();
                    cleared_lists.push(Vec::new());
                    cleared_lists.push(Vec::new());
                    cleared_lists.push(Vec::new());
                    cleared_lists.push(Vec::new());
                    self.copies_needed = cleared_lists;
                    self.color_needed = [false, false, false, false];
                    assert(self@ =~= cleared());
                },
                GoalKind::All => {
                    let now_needed = list.len() > 0;
                    self.copies_needed.insert(c, list);
                    self.color_needed[c] = now_needed;
                    assert(self@ =~= before.update(c as int, before[c as int].remove(which as int)));
                },
            }
        }
    }
}

/// In an `All` goal a draw only ever changes the targets of its own color:
/// the goal is met only once every color's targets have been obtained.
pub proof fn lemma_all_goal_keeps_other_colors(
    o: Seq<Seq<u8>>,
    fourstar_goal: bool,
    pool: Pool,
    color: Color,
    pick: int,
    other: int,
)
    requires
        o.len() == 4,
        0 <= other < 4,
        other != color.spec_index(),
    ensures
        pull_outcome(o, GoalKind::All, fourstar_goal, pool, color, pick)[other] == o[other],
        o[other].len() > 0 ==> !met(pull_outcome(o, GoalKind::All, fourstar_goal, pool, color, pick)),
{
    let r = pull_outcome(o, GoalKind::All, fourstar_goal, pool, color, pick);
    assert(r[other] == o[other]);
}

/// In an `Any` goal, the draw that obtains the last copy of a target meets
/// the goal and clears every other target, which is never consumed.
pub proof fn lemma_any_goal_met_by_first_target(
    o: Seq<Seq<u8>>,
    fourstar_goal: bool,
    pool: Pool,
    color: Color,
    pick: int,
)
    requires
        o.len() == 4,
        eligible(o, fourstar_goal, pool, color),
        0 <= target_of(pool, pick) < o[color.spec_index()].len(),
        o[color.spec_index()][target_of(pool, pick)] <= 1,
    ensures
        pull_outcome(o, GoalKind::Any, fourstar_goal, pool, color, pick) == cleared(),
        met(pull_outcome(o, GoalKind::Any, fourstar_goal, pool, color, pick)),
{
}

/// A draw never adds to what is outstanding, and a goal that is met stays
/// met.
pub proof fn lemma_met_is_final(
    o: Seq<Seq<u8>>,
    kind: GoalKind,
    fourstar_goal: bool,
    pool: Pool,
    color: Color,
    pick: int,
)
    requires
        o.len() == 4,
        met(o),
    ensures
        pull_outcome(o, kind, fourstar_goal, pool, color, pick) == o,
{
    assert(o[color.spec_index()].len() == 0);
}

} // verus!
