//! The counter record and the single path by which it changes.
//!
//! Every change goes through [`WinState::apply`], which runs the mutation and
//! then clamps both numeric fields, so a record that has been through one
//! mutation is always in range, whatever it held before.

use vstd::prelude::*;

verus! {

/// Lowest value that `win` and `goal` may take.
pub const MIN_COUNT: i32 = -10000;

/// Highest value that `win` and `goal` may take.
pub const MAX_COUNT: i32 = 10000;

/// The value in `[-10000, 10000]` nearest to `v`.
pub open spec fn clamp_count(v: int) -> int {
    if v < -10000 {
        -10000
    } else if v > 10000 {
        10000
    } else {
        v
    }
}

/// Clamps a wide intermediate value into the counter range.
pub fn clamp_to_range(v: i64) -> (r: i32)
    ensures
        r == clamp_count(v as int),
{
    if v < -10000 {
        MIN_COUNT
    } else if v > 10000 {
        MAX_COUNT
    } else {
        v as i32
    }
}

/// The single authoritative record of score, goal, visibility and active preset.
#[derive(Debug)]
pub struct WinState {
    pub win: i32,
    pub goal: i32,
    pub show_goal: bool,
    pub show_crown: bool,
    pub current_preset: String,
}

/// What a [`WinState`] is, as mathematics.
pub struct WinStateView {
    pub win: int,
    pub goal: int,
    pub show_goal: bool,
    pub show_crown: bool,
    pub current_preset: Seq<char>,
}

impl WinStateView {
    /// Both numeric fields lie in `[-10000, 10000]`.
    pub open spec fn in_range(self) -> bool {
        &&& -10000 <= self.win <= 10000
        &&& -10000 <= self.goal <= 10000
    }

    /// The record with both numeric fields clamped.
    pub open spec fn normalized(self) -> WinStateView {
        WinStateView { win: clamp_count(self.win), goal: clamp_count(self.goal), ..self }
    }

    /// The record that a fresh installation starts from.
    pub open spec fn initial() -> WinStateView {
        WinStateView {
            win: 0,
            goal: 10,
            show_goal: true,
            show_crown: true,
            current_preset: "Default"@,
        }
    }
}

impl View for WinState {
    type V = WinStateView;

    open spec fn view(&self) -> WinStateView {
        WinStateView {
            win: self.win as int,
            goal: self.goal as int,
            show_goal: self.show_goal,
            show_crown: self.show_crown,
            current_preset: self.current_preset@,
        }
    }
}

impl Clone for WinState {
    fn clone(&self) -> (r: Self)
        ensures
            r@ == self@,
    {
        WinState {
            win: self.win,
            goal: self.goal,
            show_goal: self.show_goal,
            show_crown: self.show_crown,
            current_preset: self.current_preset.clone(),
        }
    }
}

impl Default for WinState {
    fn default() -> (r: Self)
        ensures
            r@ == WinStateView::initial(),
    {
        WinState {
            win: 0,
            goal: 10,
            show_goal: true,
            show_crown: true,
            current_preset: "Default".to_owned(),
        }
    }
}

impl PartialEq for WinState {
    fn eq(&self, other: &Self) -> (r: bool) {
        self.win == other.win && self.goal == other.goal && self.show_goal == other.show_goal
            && self.show_crown == other.show_crown && self.current_preset == other.current_preset
    }
}

impl vstd::std_specs::cmp::PartialEqSpecImpl for WinState {
    open spec fn obeys_eq_spec() -> bool {
        true
    }

    open spec fn eq_spec(&self, other: &Self) -> bool {
        self@ == other@
    }
}

/// One change to the counter record.
#[derive(Debug)]
pub enum Mutation {
    /// Set `win` to a value.
    SetWin(i32),
    /// Set `goal` to a value.
    SetGoal(i32),
    /// Flip `show_goal`.
    ToggleGoalVisibility,
    /// Flip `show_crown`.
    ToggleCrownVisibility,
    /// Set `show_goal` to a value.
    ShowGoal(bool),
    /// Set `show_crown` to a value.
    ShowCrown(bool),
    /// Move `win` by `delta * step`.
    ApplyDelta { delta: i32, step: i32 },
    /// Replace the whole record.
    Replace(WinState),
}

/// What a [`Mutation`] is, as mathematics.
pub enum MutationView {
    SetWin(int),
    SetGoal(int),
    ToggleGoalVisibility,
    ToggleCrownVisibility,
    ShowGoal(bool),
    ShowCrown(bool),
    ApplyDelta { delta: int, step: int },
    Replace(WinStateView),
}

impl View for Mutation {
    type V = MutationView;

    open spec fn view(&self) -> MutationView {
        match *self {
            Mutation::SetWin(v) => MutationView::SetWin(v as int),
            Mutation::SetGoal(v) => MutationView::SetGoal(v as int),
            Mutation::ToggleGoalVisibility => MutationView::ToggleGoalVisibility,
            Mutation::ToggleCrownVisibility => MutationView::ToggleCrownVisibility,
            Mutation::ShowGoal(b) => MutationView::ShowGoal(b),
            Mutation::ShowCrown(b) => MutationView::ShowCrown(b),
            Mutation::ApplyDelta { delta, step } => MutationView::ApplyDelta {
                delta: delta as int,
                step: step as int,
            },
            Mutation::Replace(s) => MutationView::Replace(s@),
        }
    }
}

impl WinStateView {
    /// The record as the mutation leaves it, before any clamping.
    pub open spec fn changed_by(self, m: MutationView) -> WinStateView {
        match m {
            MutationView::SetWin(v) => WinStateView { win: v, ..self },
            MutationView::SetGoal(v) => WinStateView { goal: v, ..self },
            MutationView::ToggleGoalVisibility => WinStateView { show_goal: !self.show_goal, ..self },
            MutationView::ToggleCrownVisibility => WinStateView {
                show_crown: !self.show_crown,
                ..self
            },
            MutationView::ShowGoal(b) => WinStateView { show_goal: b, ..self },
            MutationView::ShowCrown(b) => WinStateView { show_crown: b, ..self },
            MutationView::ApplyDelta { delta, step } => WinStateView {
                win: self.win + delta * step,
                ..self
            },
            MutationView::Replace(s) => s,
        }
    }

    /// The record after one mutation: the change, then both numeric fields
    /// clamped.
    pub open spec fn after(self, m: MutationView) -> WinStateView {
        self.changed_by(m).normalized()
    }

    /// The record after a run of mutations, applied first to last.
    pub open spec fn after_all(self, ms: Seq<MutationView>) -> WinStateView
        decreases ms.len(),
    {
        if ms.len() == 0 {
            self
        } else {
            self.after_all(ms.drop_last()).after(ms.last())
        }
    }
}

/// Whatever the record held and whatever the mutations are, after at least
/// one mutation `win` and `goal` lie in `[-10000, 10000]`.
pub proof fn lemma_mutations_stay_in_range(s: WinStateView, ms: Seq<MutationView>)
    requires
        ms.len() > 0,
    ensures
        s.after_all(ms).in_range(),
{
}

/// A record that is in range stays in range under any run of mutations,
/// the empty run included.
pub proof fn lemma_in_range_is_invariant(s: WinStateView, ms: Seq<MutationView>)
    requires
        s.in_range(),
    ensures
        s.after_all(ms).in_range(),
    decreases ms.len(),
{
    if ms.len() > 0 {
        lemma_in_range_is_invariant(s, ms.drop_last());
    }
}

/// Replacing the record twice by the same value leaves what replacing it
/// once leaves.
pub proof fn lemma_replace_is_idempotent(s: WinStateView, full: WinStateView)
    ensures
        s.after(MutationView::Replace(full)).after(MutationView::Replace(full)) == s.after(
            MutationView::Replace(full),
        ),
{
}

impl WinState {
    /// A copy of the record; the record itself is untouched.
    pub fn read(&self) -> (snapshot: WinState)
        ensures
            snapshot@ == self@,
    {
        self.clone()
    }

    /// Clamps both numeric fields into `[-10000, 10000]`.
    pub fn normalize(&mut self)
        ensures
            final(self)@ == old(self)@.normalized(),
    {
        self.win = clamp_to_range(self.win as i64);
        self.goal = clamp_to_range(self.goal as i64);
    }

    /// Runs one mutation on the record, clamps the numeric fields, and hands
    /// back a snapshot of the result for persisting and broadcasting.
    pub fn apply(&mut self, m: Mutation) -> (snapshot: WinState)
        ensures
            final(self)@ == old(self)@.after(m@),
            final(self)@.in_range(),
            snapshot@ == final(self)@,
    {
        match m {
            Mutation::SetWin(v) => {
                self.win = v;
            },
            Mutation::SetGoal(v) => {
                self.goal = v;
            },
            Mutation::ToggleGoalVisibility => {
                self.show_goal = !self.show_goal;
            },
            Mutation::ToggleCrownVisibility => {
                self.show_crown = !self.show_crown;
            },
            Mutation::ShowGoal(b) => {
                self.show_goal = b;
            },
            Mutation::ShowCrown(b) => {
                self.show_crown = b;
            },
            Mutation::ApplyDelta { delta, step } => {
                assert(-0x4000_0000_0000_0000 <= (delta as int) * (step as int)
                    <= 0x4000_0000_0000_0000) by (nonlinear_arith)
                    requires
                        -0x8000_0000 <= delta <= 0x7fff_ffff,
                        -0x8000_0000 <= step <= 0x7fff_ffff,
                ;
                let moved: i64 = self.win as i64 + (delta as i64) * (step as i64);
                self.win = clamp_to_range(moved);
            },
            Mutation::Replace(s) => {
                *self = s;
            },
        }
        self.normalize();
        self.clone()
    }

    /// `win` becomes `value`, clamped.
    pub fn set_win(&mut self, value: i32) -> (snapshot: WinState)
        ensures
            final(self)@ == old(self)@.after(MutationView::SetWin(value as int)),
            snapshot@ == final(self)@,
    {
        self.apply(Mutation::SetWin(value))
    }

    /// `goal` becomes `value`, clamped.
    pub fn set_goal(&mut self, value: i32) -> (snapshot: WinState)
        ensures
            final(self)@ == old(self)@.after(MutationView::SetGoal(value as int)),
            snapshot@ == final(self)@,
    {
        self.apply(Mutation::SetGoal(value))
    }

    /// Flips whether the goal is shown.
    pub fn toggle_goal_visibility(&mut self) -> (snapshot: WinState)
        ensures
            final(self)@ == old(self)@.after(MutationView::ToggleGoalVisibility),
            snapshot@ == final(self)@,
    {
        self.apply(Mutation::ToggleGoalVisibility)
    }

    /// Flips whether the crown is shown.
    pub fn toggle_crown_visibility(&mut self) -> (snapshot: WinState)
        ensures
            final(self)@ == old(self)@.after(MutationView::ToggleCrownVisibility),
            snapshot@ == final(self)@,
    {
        self.apply(Mutation::ToggleCrownVisibility)
    }

    /// `win` becomes `clamp(win + delta * step, -10000, 10000)`.
    pub fn apply_delta(&mut self, delta: i32, step: i32) -> (snapshot: WinState)
        ensures
            final(self)@ == old(self)@.after(
                MutationView::ApplyDelta { delta: delta as int, step: step as int },
            ),
            final(self)@.win == clamp_count(old(self)@.win + delta * step),
            snapshot@ == final(self)@,
    {
        self.apply(Mutation::ApplyDelta { delta, step })
    }

    /// The record becomes `full`, with its numeric fields clamped.
    pub fn replace(&mut self, full: WinState) -> (snapshot: WinState)
        ensures
            final(self)@ == full@.normalized(),
            snapshot@ == final(self)@,
    {
        self.apply(Mutation::Replace(full))
    }
}

} // verus!
