//! The command surface: what the control surface, the hotkeys and the
//! display clients can ask of the counter, and what has to happen after.
//!
//! The engine owns the counter record, the presets, the hotkey bindings and
//! the key trackers. It does no I/O. Each operation changes the engine in
//! memory and hands back the effects that its owner has to carry out, in the
//! order in which they are listed: the record is persisted before it is
//! broadcast, so that no subscriber sees a state that was never written.

use crate::frame::ControlFrame;
use crate::hotkey::{bindings_of, default_bindings, resolved, HotkeyAction, HotkeyMap};
use crate::preset::{
    default_name, deleted, has_name, mirrored, position, renamed, repaired, saved, views,
    PresetData, PresetError, PresetStore, PresetView,
};
use crate::shortcut::{
    action_name_for, conversion, convert_hotkey_format, is_malformed, malformed, HotkeyError,
    RegistrationPlan,
};
use crate::state::{Mutation, MutationView, WinState, WinStateView};
use crate::text::text_eq;
use crate::tracker::{KeyEventTracker, TrackerMap};
use vstd::prelude::*;

verus! {

/// Why a command was refused.
#[derive(Debug, Clone, Copy, PartialEq, Eq, Structural)]
pub enum CommandError {
    /// The caller is not authorized; nothing was touched.
    Unauthorized,
    /// The preset collection refused the operation.
    Preset(PresetError),
    /// The key combination cannot be bound.
    Hotkey(HotkeyError),
}

impl CommandError {
    /// What the control surface is told when a command on the thing
    /// called `name` was refused for this reason.
    pub open spec fn spec_message(self, name: Seq<char>) -> Seq<char> {
        match self {
            CommandError::Unauthorized => "UNAUTHORIZED_ACCESS"@,
            CommandError::Preset(e) => e.spec_message(name),
            CommandError::Hotkey(e) => e.spec_message(name),
        }
    }

    /// What the control surface is told when a command on the thing
    /// called `name` was refused for this reason.
    pub fn message(self, name: &str) -> (r: String)
        ensures
            r@ == self.spec_message(name@),
    {
        match self {
            CommandError::Unauthorized => "UNAUTHORIZED_ACCESS".to_owned(),
            CommandError::Preset(e) => e.message(name),
            CommandError::Hotkey(e) => e.message(name),
        }
    }
}

/// The greeting for `name`.
pub open spec fn greeting(name: Seq<char>) -> Seq<char> {
    "Hello, "@ + name + "! You've been greeted from Rust!"@
}

/// Greets an authorized caller.
pub fn greet(authorized: bool, name: &str) -> (r: Result<String, CommandError>)
    ensures
        match r {
            Ok(text) => authorized && text@ == greeting(name@),
            Err(e) => !authorized && e == CommandError::Unauthorized,
        },
{
    if !authorized {
        return Err(CommandError::Unauthorized);
    }
    Ok("Hello, ".to_owned().concat(name).concat("! You've been greeted from Rust!"))
}

/// One line of the report on the hotkeys: the action, its combination as
/// it was written, and the combination as the host's parser reads it, or
/// why it cannot be read.
pub open spec fn conversion_line(action: Seq<char>, combo: Seq<char>) -> Seq<char> {
    action + " -> "@ + combo + " -> "@ + (match conversion(combo) {
        Ok(text) => text,
        Err(e) => "ERROR: "@ + e.spec_message(combo),
    })
}

/// Which sound goes with a change of the counter.
#[derive(Debug, Clone, Copy, PartialEq, Eq, Structural)]
pub enum Sound {
    Increase,
    Decrease,
}

/// Something that the owner of the engine has to do after an operation.
#[derive(Debug, Clone, Copy, PartialEq, Eq, Structural)]
pub enum Effect {
    /// Write the counter record to its file.
    PersistState,
    /// Publish the counter record to the hub.
    Broadcast,
    /// Write the presets to their file.
    PersistPresets,
    /// Write the hotkey bindings to their file.
    PersistHotkeys,
    /// Plan and register the hotkey bindings anew.
    RegisterHotkeys,
    /// Play a sound.
    PlaySound(Sound),
}

/// What an operation hands back: the counter record as it now stands, and
/// the effects to carry out, first to last.
#[derive(Debug)]
pub struct Outcome {
    pub snapshot: WinState,
    pub effects: Vec<Effect>,
}

/// The effects of a mutation of the counter record.
pub open spec fn mutation_effects() -> Seq<Effect> {
    seq![Effect::PersistState, Effect::Broadcast, Effect::PersistPresets]
}

/// The effects of a step of the counter: those of a mutation, and the
/// sound that goes with the direction.
pub open spec fn step_effects(delta: int) -> Seq<Effect> {
    mutation_effects().push(
        Effect::PlaySound(
            if delta > 0 {
                Sound::Increase
            } else {
                Sound::Decrease
            },
        ),
    )
}

/// The effects of loading a preset.
pub open spec fn load_effects() -> Seq<Effect> {
    seq![
        Effect::PersistState,
        Effect::Broadcast,
        Effect::PersistHotkeys,
        Effect::RegisterHotkeys,
    ]
}

/// The effects of saving a preset: the presets are written, and the
/// counter record too where saving changed it.
pub open spec fn save_effects(active: bool) -> Seq<Effect> {
    if active {
        seq![Effect::PersistPresets, Effect::PersistState, Effect::Broadcast]
    } else {
        seq![Effect::PersistPresets]
    }
}

/// The engine.
#[derive(Debug)]
pub struct Engine {
    pub state: WinState,
    pub presets: PresetStore,
    pub hotkeys: HotkeyMap,
    pub trackers: TrackerMap,
    /// Whether a hotkey's step is scaled by how rapidly it is pressed.
    /// Off unless switched on.
    pub acceleration: bool,
}

/// What an [`Engine`] is, as mathematics.
pub struct EngineView {
    pub state: WinStateView,
    pub presets: Seq<PresetView>,
    pub hotkeys: Seq<(Seq<char>, Seq<char>)>,
    pub trackers: Map<Seq<char>, KeyEventTracker>,
    pub acceleration: bool,
}

impl View for Engine {
    type V = EngineView;

    open spec fn view(&self) -> EngineView {
        EngineView {
            state: self.state@,
            presets: self.presets@,
            hotkeys: self.hotkeys@,
            trackers: self.trackers@,
            acceleration: self.acceleration,
        }
    }
}

/// The hotkeys of the preset that `state` names, if there is such a preset.
pub open spec fn active_hotkeys(presets: Seq<PresetView>, state: WinStateView) -> Option<
    crate::hotkey::HotkeyConfigView,
> {
    match position(presets, state.current_preset) {
        Some(i) => Some(presets[i].hotkeys),
        None => None,
    }
}

impl EngineView {
    /// The engine after a mutation of the counter record: the record is
    /// changed and clamped, and mirrored into the preset that it names.
    pub open spec fn mutated(self, m: MutationView) -> EngineView {
        let next = self.state.after(m);
        EngineView { state: next, presets: mirrored(self.presets, next), ..self }
    }

    /// The engine after a preset was saved: the collection takes it, and
    /// the counter record takes its counter fields if it is the active one.
    pub open spec fn preset_saved(self, p: PresetView) -> EngineView {
        EngineView {
            presets: saved(self.presets, p),
            state: if self.state.current_preset == p.name {
                WinStateView { current_preset: self.state.current_preset, ..p.as_state() }.normalized()
            } else {
                self.state
            },
            ..self
        }
    }

    /// The step that a hotkey action makes now: its own, scaled by how
    /// rapidly the combination is pressed where acceleration is on.
    pub open spec fn step_of(self, action: HotkeyAction, before: KeyEventTracker, now: u64) -> int {
        if self.acceleration {
            action.spec_step() * before.spec_dynamic_step(now)
        } else {
            action.spec_step()
        }
    }

    /// What the engine remembers of `shortcut`: its tracker, or a fresh
    /// one if the shortcut was never reported.
    pub open spec fn tracker_of(self, shortcut: Seq<char>) -> KeyEventTracker {
        if self.trackers.contains_key(shortcut) {
            self.trackers[shortcut]
        } else {
            KeyEventTracker::fresh()
        }
    }

    /// A report of `shortcut` at `now`, with the keys sampled as `down`,
    /// moves the counter: the tracker accepts it as a new press, and the
    /// plan knows an action for the shortcut.
    pub open spec fn moves_on(
        self,
        plan: Seq<(Seq<char>, Seq<char>)>,
        shortcut: Seq<char>,
        down: bool,
        now: u64,
    ) -> bool {
        self.tracker_of(shortcut).accepts(down, now) && planned_action(plan, shortcut) is Some
    }

    /// The engine after a report of `shortcut` at `now` with the keys
    /// sampled as `down`: the tracker of the shortcut has taken the report,
    /// and the counter has made the action's step where the report moves
    /// it.
    pub open spec fn notified(
        self,
        plan: Seq<(Seq<char>, Seq<char>)>,
        shortcut: Seq<char>,
        down: bool,
        now: u64,
    ) -> EngineView {
        let before = self.tracker_of(shortcut);
        let told = EngineView {
            trackers: self.trackers.insert(shortcut, before.after(down, now)),
            ..self
        };
        if self.moves_on(plan, shortcut, down, now) {
            let action = planned_action(plan, shortcut)->0;
            told.mutated(
                MutationView::ApplyDelta {
                    delta: action.spec_delta(),
                    step: self.step_of(action, before, now),
                },
            )
        } else {
            told
        }
    }

    /// What a report of `shortcut` hands back to be carried out: the
    /// effects of the action's step where the report moves the counter,
    /// nothing where it does not.
    pub open spec fn handed_back(
        self,
        plan: Seq<(Seq<char>, Seq<char>)>,
        shortcut: Seq<char>,
        down: bool,
        now: u64,
    ) -> Option<Seq<Effect>> {
        if self.moves_on(plan, shortcut, down, now) {
            Some(step_effects(planned_action(plan, shortcut)->0.spec_delta()))
        } else {
            None
        }
    }
}

/// The effects of a step hold exactly one broadcast, and the counter is
/// written before it.
pub proof fn lemma_a_step_broadcasts_once(delta: int)
    ensures
        step_effects(delta).len() == 4,
        step_effects(delta)[0] == Effect::PersistState,
        step_effects(delta)[1] == Effect::Broadcast,
        forall|i: int|
            0 <= i < 4 && i != 1 ==> #[trigger] step_effects(delta)[i] != Effect::Broadcast,
{
}

/// The action that a plan gives to `shortcut`, if it gives it one.
pub open spec fn planned_action(plan: Seq<(Seq<char>, Seq<char>)>, shortcut: Seq<char>) -> Option<
    HotkeyAction,
> {
    match action_name_for(plan, shortcut) {
        Some(name) => HotkeyAction::named(name),
        None => None,
    }
}

/// Once a report has moved the counter, no report of the same shortcut
/// that comes less than 100 ms later moves it again, whatever was reported
/// of the shortcut in between: the counter has changed exactly once, the
/// first report has handed back the effects of one step, and the later
/// one hands back nothing.
pub proof fn lemma_second_event_within_the_floor_moves_nothing(
    e: EngineView,
    plan: Seq<(Seq<char>, Seq<char>)>,
    shortcut: Seq<char>,
    first_at: u64,
    between_down: bool,
    between_at: u64,
    second_down: bool,
    second_at: u64,
)
    requires
        e.moves_on(plan, shortcut, true, first_at),
        second_at - first_at < 100,
    ensures
        ({
            let action = planned_action(plan, shortcut)->0;
            let first = e.notified(plan, shortcut, true, first_at);
            let between = first.notified(plan, shortcut, between_down, between_at);
            &&& first.state == e.state.after(
                MutationView::ApplyDelta {
                    delta: action.spec_delta(),
                    step: e.step_of(action, e.tracker_of(shortcut), first_at),
                },
            )
            &&& e.handed_back(plan, shortcut, true, first_at) == Some(
                step_effects(action.spec_delta()),
            )
            &&& first.handed_back(plan, shortcut, second_down, second_at) is None
            &&& between.handed_back(plan, shortcut, second_down, second_at) is None
            &&& !first.moves_on(plan, shortcut, second_down, second_at)
            &&& first.notified(plan, shortcut, second_down, second_at).state == first.state
            &&& first.notified(plan, shortcut, second_down, second_at).presets == first.presets
            &&& !first.moves_on(plan, shortcut, between_down, between_at)
            &&& !between.moves_on(plan, shortcut, second_down, second_at)
            &&& between.notified(plan, shortcut, second_down, second_at).state == first.state
            &&& between.notified(plan, shortcut, second_down, second_at).presets == first.presets
        }),
{
    let first = e.notified(plan, shortcut, true, first_at);
    assert(first.trackers.contains_key(shortcut));
    let between = first.notified(plan, shortcut, between_down, between_at);
    assert(between.trackers.contains_key(shortcut));
}

/// Two presses of a hotkey that increments, 50 ms or any time less than
/// 100 ms apart, leave `win` one higher than it was, where the step is not
/// scaled and `win` has room to rise.
pub proof fn lemma_two_quick_increments_count_once(
    e: EngineView,
    plan: Seq<(Seq<char>, Seq<char>)>,
    shortcut: Seq<char>,
    first_at: u64,
    second_down: bool,
    second_at: u64,
)
    requires
        e.moves_on(plan, shortcut, true, first_at),
        planned_action(plan, shortcut) == Some(HotkeyAction::Increment),
        !e.acceleration,
        -10000 <= e.state.win < 10000,
        second_at - first_at < 100,
    ensures
        e.notified(plan, shortcut, true, first_at).notified(
            plan,
            shortcut,
            second_down,
            second_at,
        ).state.win == e.state.win + 1,
{
    lemma_second_event_within_the_floor_moves_nothing(
        e,
        plan,
        shortcut,
        first_at,
        second_down,
        second_at,
        second_down,
        second_at,
    );
}

/// The effects of a mutation, as a list.
fn list_mutation_effects() -> (r: Vec<Effect>)
    ensures
        r@ == mutation_effects(),
{
    let mut effects: Vec<Effect> = Vec::new();
    effects.push(Effect::PersistState);
    effects.push(Effect::Broadcast);
    effects.push(Effect::PersistPresets);
    assert(effects@ =~= mutation_effects());
    effects
}

impl Engine {
    /// Starts the engine from what was stored, each part as far as it
    /// could be read: a record that could not be read is the initial one,
    /// the presets are repaired, a record that names a preset that is not
    /// there is pointed at `Default`, and the hotkeys are resolved from the
    /// hotkey file, the active preset, or the defaults. Says whether the
    /// record had to be pointed at `Default`.
    pub fn start(
        stored_state: Option<WinState>,
        stored_presets: Option<Vec<PresetData>>,
        stored_hotkeys: Option<HotkeyMap>,
    ) -> (r: (Engine, bool))
        ensures
            r.0.presets.wf(),
            r.0@.presets == repaired(
                match stored_presets {
                    Some(entries) => views(entries@),
                    None => Seq::empty(),
                },
            ),
            r.0@.state.in_range(),
            has_name(r.0@.presets, r.0@.state.current_preset),
            r.1 == !has_name(
                r.0@.presets,
                match stored_state {
                    Some(s) => s@.current_preset,
                    None => default_name(),
                },
            ),
            r.0@.state == ({
                let read = match stored_state {
                    Some(s) => s@.normalized(),
                    None => WinStateView::initial(),
                };
                if r.1 {
                    WinStateView { current_preset: default_name(), ..read }
                } else {
                    read
                }
            }),
            r.0@.hotkeys == resolved(
                match stored_hotkeys {
                    Some(m) => Some(m@),
                    None => None,
                },
                active_hotkeys(r.0@.presets, r.0@.state),
            ),
            r.0@.trackers == Map::<Seq<char>, KeyEventTracker>::empty(),
            !r.0@.acceleration,
    {
        let mut state = match stored_state {
            Some(s) => s,
            None => WinState::default(),
        };
        state.normalize();
        let presets = match stored_presets {
            Some(entries) => PresetStore::repair(entries),
            None => {
                let entries: Vec<PresetData> = Vec::new();
                assert(views(entries@) =~= Seq::<PresetView>::empty());
                PresetStore::repair(entries)
            },
        };
        let changed = presets.resolve_current_preset(&mut state);
        let active = presets.get(state.current_preset.as_str());
        let hotkeys = match &active {
            Some(p) => HotkeyMap::resolve(stored_hotkeys, Some(&p.hotkeys)),
            None => HotkeyMap::resolve(stored_hotkeys, None),
        };
        let engine = Engine {
            state,
            presets,
            hotkeys,
            trackers: TrackerMap::new(),
            acceleration: false,
        };
        (engine, changed)
    }

    /// A copy of the counter record, for an authorized caller.
    pub fn get_win_state(&self, authorized: bool) -> (r: Result<WinState, CommandError>)
        ensures
            match r {
                Ok(s) => authorized && s@ == self@.state,
                Err(e) => !authorized && e == CommandError::Unauthorized,
            },
    {
        if !authorized {
            return Err(CommandError::Unauthorized);
        }
        Ok(self.state.read())
    }

    /// Mutates the counter record and mirrors it into the active preset.
    /// This is the one entry point for every change of the record.
    pub fn mutate(&mut self, m: Mutation) -> (r: Outcome)
        ensures
            final(self)@ == old(self)@.mutated(m@),
            final(self)@.state.in_range(),
            has_name(final(self)@.presets, final(self)@.state.current_preset),
            old(self).presets.wf() ==> final(self).presets.wf(),
            r.snapshot@ == final(self)@.state,
            r.effects@ == mutation_effects(),
    {
        let snapshot = self.state.apply(m);
        self.presets.mirror(&snapshot);
        Outcome { snapshot, effects: list_mutation_effects() }
    }

    /// Mutates the counter record for an authorized caller; for any other
    /// caller nothing changes.
    pub fn command(&mut self, authorized: bool, m: Mutation) -> (r: Result<Outcome, CommandError>)
        ensures
            match r {
                Ok(outcome) => {
                    &&& authorized
                    &&& final(self)@ == old(self)@.mutated(m@)
                    &&& outcome.snapshot@ == final(self)@.state
                    &&& outcome.effects@ == mutation_effects()
                },
                Err(e) => !authorized && e == CommandError::Unauthorized && *final(self) == *old(
                    self,
                ),
            },
            final(self)@.state.in_range() || !authorized,
            old(self).presets.wf() ==> final(self).presets.wf(),
    {
        if !authorized {
            return Err(CommandError::Unauthorized);
        }
        Ok(self.mutate(m))
    }

    /// Replaces the whole counter record.
    pub fn set_win_state(&mut self, authorized: bool, new_state: WinState) -> (r: Result<
        Outcome,
        CommandError,
    >)
        ensures
            match r {
                Ok(outcome) => {
                    &&& authorized
                    &&& final(self)@ == old(self)@.mutated(MutationView::Replace(new_state@))
                    &&& outcome.snapshot@ == final(self)@.state
                    &&& outcome.effects@ == mutation_effects()
                },
                Err(e) => !authorized && e == CommandError::Unauthorized && *final(self) == *old(
                    self,
                ),
            },
    {
        self.command(authorized, Mutation::Replace(new_state))
    }

    /// Sets `win` to `value`, clamped.
    pub fn set_win(&mut self, authorized: bool, value: i32) -> (r: Result<Outcome, CommandError>)
        ensures
            match r {
                Ok(outcome) => {
                    &&& authorized
                    &&& final(self)@ == old(self)@.mutated(MutationView::SetWin(value as int))
                    &&& outcome.snapshot@ == final(self)@.state
                    &&& outcome.effects@ == mutation_effects()
                },
                Err(e) => !authorized && e == CommandError::Unauthorized && *final(self) == *old(
                    self,
                ),
            },
    {
        self.command(authorized, Mutation::SetWin(value))
    }

    /// Sets `goal` to `value`, clamped.
    pub fn set_goal(&mut self, authorized: bool, value: i32) -> (r: Result<Outcome, CommandError>)
        ensures
            match r {
                Ok(outcome) => {
                    &&& authorized
                    &&& final(self)@ == old(self)@.mutated(MutationView::SetGoal(value as int))
                    &&& outcome.snapshot@ == final(self)@.state
                    &&& outcome.effects@ == mutation_effects()
                },
                Err(e) => !authorized && e == CommandError::Unauthorized && *final(self) == *old(
                    self,
                ),
            },
    {
        self.command(authorized, Mutation::SetGoal(value))
    }

    /// Flips whether the goal is shown.
    pub fn toggle_goal_visibility(&mut self, authorized: bool) -> (r: Result<Outcome, CommandError>)
        ensures
            match r {
                Ok(outcome) => {
                    &&& authorized
                    &&& final(self)@ == old(self)@.mutated(MutationView::ToggleGoalVisibility)
                    &&& outcome.snapshot@ == final(self)@.state
                    &&& outcome.effects@ == mutation_effects()
                },
                Err(e) => !authorized && e == CommandError::Unauthorized && *final(self) == *old(
                    self,
                ),
            },
    {
        self.command(authorized, Mutation::ToggleGoalVisibility)
    }

    /// Flips whether the crown is shown.
    pub fn toggle_crown_visibility(&mut self, authorized: bool) -> (r: Result<
        Outcome,
        CommandError,
    >)
        ensures
            match r {
                Ok(outcome) => {
                    &&& authorized
                    &&& final(self)@ == old(self)@.mutated(MutationView::ToggleCrownVisibility)
                    &&& outcome.snapshot@ == final(self)@.state
                    &&& outcome.effects@ == mutation_effects()
                },
                Err(e) => !authorized && e == CommandError::Unauthorized && *final(self) == *old(
                    self,
                ),
            },
    {
        self.command(authorized, Mutation::ToggleCrownVisibility)
    }

    /// Moves `win` by `delta * step`, clamped, and asks for the sound that
    /// goes with the direction. This is what a hotkey does; it asks for no
    /// authorization.
    pub fn change_win_with_step(&mut self, delta: i32, step: i32) -> (r: Outcome)
        ensures
            final(self)@ == old(self)@.mutated(
                MutationView::ApplyDelta { delta: delta as int, step: step as int },
            ),
            final(self)@.state.in_range(),
            old(self).presets.wf() ==> final(self).presets.wf(),
            r.snapshot@ == final(self)@.state,
            r.effects@ == step_effects(delta as int),
    {
        let mut outcome = self.mutate(Mutation::ApplyDelta { delta, step });
        let sound = if delta > 0 {
            Sound::Increase
        } else {
            Sound::Decrease
        };
        outcome.effects.push(Effect::PlaySound(sound));
        outcome
    }

    /// Moves `win` by `delta`, a step of one.
    pub fn change_win(&mut self, delta: i32) -> (r: Outcome)
        ensures
            final(self)@ == old(self)@.mutated(
                MutationView::ApplyDelta { delta: delta as int, step: 1 },
            ),
            r.snapshot@ == final(self)@.state,
            r.effects@ == step_effects(delta as int),
    {
        self.change_win_with_step(delta, 1)
    }

    /// Moves `win` by `delta * step` for an authorized caller.
    fn step_command(&mut self, authorized: bool, delta: i32, step: i32) -> (r: Result<
        Outcome,
        CommandError,
    >)
        ensures
            match r {
                Ok(outcome) => {
                    &&& authorized
                    &&& final(self)@ == old(self)@.mutated(
                        MutationView::ApplyDelta { delta: delta as int, step: step as int },
                    )
                    &&& outcome.snapshot@ == final(self)@.state
                    &&& outcome.effects@ == step_effects(delta as int)
                },
                Err(e) => !authorized && e == CommandError::Unauthorized && *final(self) == *old(
                    self,
                ),
            },
    {
        if !authorized {
            return Err(CommandError::Unauthorized);
        }
        Ok(self.change_win_with_step(delta, step))
    }

    /// `win` goes up by one.
    pub fn increase_win(&mut self, authorized: bool) -> (r: Result<Outcome, CommandError>)
        ensures
            match r {
                Ok(outcome) => {
                    &&& authorized
                    &&& final(self)@ == old(self)@.mutated(
                        MutationView::ApplyDelta { delta: 1, step: 1 },
                    )
                    &&& outcome.snapshot@ == final(self)@.state
                    &&& outcome.effects@ == step_effects(1)
                },
                Err(e) => !authorized && e == CommandError::Unauthorized && *final(self) == *old(
                    self,
                ),
            },
    {
        self.step_command(authorized, 1, 1)
    }

    /// `win` goes down by one.
    pub fn decrease_win(&mut self, authorized: bool) -> (r: Result<Outcome, CommandError>)
        ensures
            match r {
                Ok(outcome) => {
                    &&& authorized
                    &&& final(self)@ == old(self)@.mutated(
                        MutationView::ApplyDelta { delta: -1, step: 1 },
                    )
                    &&& outcome.snapshot@ == final(self)@.state
                    &&& outcome.effects@ == step_effects(-1)
                },
                Err(e) => !authorized && e == CommandError::Unauthorized && *final(self) == *old(
                    self,
                ),
            },
    {
        self.step_command(authorized, -1, 1)
    }

    /// `win` goes up by `step`.
    pub fn increase_win_by_step(&mut self, authorized: bool, step: i32) -> (r: Result<
        Outcome,
        CommandError,
    >)
        ensures
            match r {
                Ok(outcome) => {
                    &&& authorized
                    &&& final(self)@ == old(self)@.mutated(
                        MutationView::ApplyDelta { delta: 1, step: step as int },
                    )
                    &&& outcome.snapshot@ == final(self)@.state
                    &&& outcome.effects@ == step_effects(1)
                },
                Err(e) => !authorized && e == CommandError::Unauthorized && *final(self) == *old(
                    self,
                ),
            },
    {
        self.step_command(authorized, 1, step)
    }

    /// `win` goes down by `step`.
    pub fn decrease_win_by_step(&mut self, authorized: bool, step: i32) -> (r: Result<
        Outcome,
        CommandError,
    >)
        ensures
            match r {
                Ok(outcome) => {
                    &&& authorized
                    &&& final(self)@ == old(self)@.mutated(
                        MutationView::ApplyDelta { delta: -1, step: step as int },
                    )
                    &&& outcome.snapshot@ == final(self)@.state
                    &&& outcome.effects@ == step_effects(-1)
                },
                Err(e) => !authorized && e == CommandError::Unauthorized && *final(self) == *old(
                    self,
                ),
            },
    {
        self.step_command(authorized, -1, step)
    }

    /// Takes a control frame from a display client. A frame that asks for a
    /// mutation is carried out like any other mutation; one that asks for
    /// none changes nothing and has no effects.
    pub fn take_frame(&mut self, frame: ControlFrame) -> (r: Option<Outcome>)
        ensures
            match frame@.mutation() {
                Some(m) => {
                    &&& r is Some
                    &&& final(self)@ == old(self)@.mutated(m)
                    &&& r->0.snapshot@ == final(self)@.state
                    &&& r->0.effects@ == mutation_effects()
                },
                None => r is None && *final(self) == *old(self),
            },
    {
        match frame.mutation() {
            Some(m) => Some(self.mutate(m)),
            None => None,
        }
    }

    /// Takes one report of the host that `shortcut` is down. `sampled_down`
    /// is what sampling the keys again has found, `now` the clock. The
    /// counter moves only if the tracker of the shortcut accepts the report
    /// as a new press and `plan` knows an action for the shortcut.
    pub fn on_notification(
        &mut self,
        plan: &RegistrationPlan,
        shortcut: &str,
        sampled_down: bool,
        now: u64,
    ) -> (r: Option<Outcome>)
        ensures
            final(self)@ == old(self)@.notified(plan@.shortcuts, shortcut@, sampled_down, now),
            r is Some <==> old(self)@.moves_on(plan@.shortcuts, shortcut@, sampled_down, now),
            match r {
                Some(outcome) => {
                    &&& outcome.snapshot@ == final(self)@.state
                    &&& old(self)@.handed_back(plan@.shortcuts, shortcut@, sampled_down, now)
                        == Some(outcome.effects@)
                },
                None => old(self)@.handed_back(plan@.shortcuts, shortcut@, sampled_down, now)
                    is None,
            },
    {
        let before = self.trackers.get(shortcut);
        let fired = self.trackers.notify(shortcut, sampled_down, now);
        if !fired {
            return None;
        }
        match plan.action_for(shortcut) {
            None => None,
            Some(action) => {
                let factor = if self.acceleration {
                    before.calculate_dynamic_step(now)
                } else {
                    1
                };
                let step = action.step() * factor;
                Some(self.change_win_with_step(action.delta(), step))
            },
        }
    }

    /// Saves a preset. Where it is the active one, the counter record
    /// takes its counter fields.
    pub fn save_preset(&mut self, authorized: bool, preset: PresetData) -> (r: Result<
        Outcome,
        CommandError,
    >)
        ensures
            match r {
                Ok(outcome) => {
                    &&& authorized
                    &&& final(self)@ == old(self)@.preset_saved(preset@)
                    &&& position(final(self)@.presets, preset@.name) == Some(
                        final(self)@.presets.len() - 1,
                    )
                    &&& final(self)@.presets.last() == preset@
                    &&& outcome.snapshot@ == final(self)@.state
                    &&& outcome.effects@ == save_effects(
                        old(self)@.state.current_preset == preset@.name,
                    )
                },
                Err(e) => !authorized && e == CommandError::Unauthorized && *final(self) == *old(
                    self,
                ),
            },
            old(self).presets.wf() ==> final(self).presets.wf(),
    {
        if !authorized {
            return Err(CommandError::Unauthorized);
        }
        let active = text_eq(self.state.current_preset.as_str(), preset.name.as_str());
        let mut effects: Vec<Effect> = Vec::new();
        effects.push(Effect::PersistPresets);
        if active {
            let next = WinState {
                win: preset.win,
                goal: preset.goal,
                show_goal: preset.show_goal,
                show_crown: preset.show_crown,
                current_preset: self.state.current_preset.clone(),
            };
            self.state.replace(next);
            effects.push(Effect::PersistState);
            effects.push(Effect::Broadcast);
        }
        self.presets.save(preset);
        assert(effects@ =~= save_effects(active));
        Ok(Outcome { snapshot: self.state.read(), effects })
    }

    /// A copy of every preset, oldest first.
    pub fn load_presets(&self, authorized: bool) -> (r: Result<Vec<PresetData>, CommandError>)
        ensures
            match r {
                Ok(list) => authorized && views(list@) == self@.presets,
                Err(e) => !authorized && e == CommandError::Unauthorized,
            },
    {
        if !authorized {
            return Err(CommandError::Unauthorized);
        }
        Ok(self.presets.list())
    }

    /// Loads the preset called `name`: the counter record takes its
    /// counter fields and its name, and the hotkeys in force become those
    /// of the preset. Hands back a copy of the preset.
    pub fn load_preset(&mut self, authorized: bool, name: &str) -> (r: Result<
        (PresetData, Outcome),
        CommandError,
    >)
        ensures
            match r {
                Ok((preset, outcome)) => {
                    &&& authorized
                    &&& position(old(self)@.presets, name@) is Some
                    &&& preset@ == old(self)@.presets[position(old(self)@.presets, name@)->0]
                    &&& final(self)@ == (EngineView {
                        state: preset@.as_state().normalized(),
                        hotkeys: bindings_of(preset@.hotkeys),
                        ..old(self)@
                    })
                    &&& outcome.snapshot@ == final(self)@.state
                    &&& outcome.effects@ == load_effects()
                },
                Err(e) => {
                    &&& *final(self) == *old(self)
                    &&& e == (if !authorized {
                        CommandError::Unauthorized
                    } else {
                        CommandError::Preset(PresetError::NotFound)
                    })
                    &&& authorized ==> position(old(self)@.presets, name@) is None
                },
            },
    {
        if !authorized {
            return Err(CommandError::Unauthorized);
        }
        match self.presets.load(name, &mut self.state) {
            Err(e) => Err(CommandError::Preset(e)),
            Ok(preset) => {
                self.hotkeys = HotkeyMap::from_config(&preset.hotkeys);
                let mut effects: Vec<Effect> = Vec::new();
                effects.push(Effect::PersistState);
                effects.push(Effect::Broadcast);
                effects.push(Effect::PersistHotkeys);
                effects.push(Effect::RegisterHotkeys);
                assert(effects@ =~= load_effects());
                Ok((preset, Outcome { snapshot: self.state.read(), effects }))
            },
        }
    }

    /// Deletes the presets called `name`.
    pub fn delete_preset(&mut self, authorized: bool, name: &str) -> (r: Result<
        Outcome,
        CommandError,
    >)
        ensures
            match r {
                Ok(outcome) => {
                    &&& authorized
                    &&& name@ != default_name()
                    &&& has_name(old(self)@.presets, name@)
                    &&& final(self)@ == (EngineView {
                        presets: deleted(old(self)@.presets, name@),
                        ..old(self)@
                    })
                    &&& outcome.snapshot@ == final(self)@.state
                    &&& outcome.effects@ == seq![Effect::PersistPresets]
                },
                Err(e) => {
                    &&& *final(self) == *old(self)
                    &&& e == (if !authorized {
                        CommandError::Unauthorized
                    } else if name@ == default_name() {
                        CommandError::Preset(PresetError::DefaultProtected)
                    } else {
                        CommandError::Preset(PresetError::NotFound)
                    })
                    &&& authorized && name@ != default_name() ==> !has_name(
                        old(self)@.presets,
                        name@,
                    )
                },
            },
            old(self).presets.wf() ==> final(self).presets.wf(),
    {
        if !authorized {
            return Err(CommandError::Unauthorized);
        }
        match self.presets.delete(name) {
            Err(e) => Err(CommandError::Preset(e)),
            Ok(()) => {
                let mut effects: Vec<Effect> = Vec::new();
                effects.push(Effect::PersistPresets);
                assert(effects@ =~= seq![Effect::PersistPresets]);
                Ok(Outcome { snapshot: self.state.read(), effects })
            },
        }
    }

    /// Renames the first preset called `old_name` to `new_name`. An
    /// authorized caller succeeds exactly when `old_name` is there and is
    /// not `Default`, and `new_name` is free or the same name.
    pub fn rename_preset(&mut self, authorized: bool, old_name: &str, new_name: String) -> (r:
        Result<Outcome, CommandError>)
        ensures
            r is Ok <==> authorized && old_name@ != default_name() && has_name(
                old(self)@.presets,
                old_name@,
            ) && (new_name@ == old_name@ || !has_name(old(self)@.presets, new_name@)),
            match r {
                Ok(outcome) => {
                    &&& authorized
                    &&& position(old(self)@.presets, old_name@) is Some
                    &&& final(self)@ == (EngineView {
                        presets: renamed(
                            old(self)@.presets,
                            position(old(self)@.presets, old_name@)->0,
                            new_name@,
                        ),
                        ..old(self)@
                    })
                    &&& outcome.snapshot@ == final(self)@.state
                    &&& outcome.effects@ == seq![Effect::PersistPresets]
                },
                Err(e) => {
                    &&& *final(self) == *old(self)
                    &&& e == (if !authorized {
                        CommandError::Unauthorized
                    } else if old_name@ == default_name() {
                        CommandError::Preset(PresetError::DefaultProtected)
                    } else if !has_name(old(self)@.presets, old_name@) {
                        CommandError::Preset(PresetError::NotFound)
                    } else {
                        CommandError::Preset(PresetError::NameTaken)
                    })
                },
            },
            old(self).presets.wf() ==> final(self).presets.wf(),
    {
        if !authorized {
            return Err(CommandError::Unauthorized);
        }
        match self.presets.rename(old_name, new_name) {
            Err(e) => Err(CommandError::Preset(e)),
            Ok(()) => {
                let mut effects: Vec<Effect> = Vec::new();
                effects.push(Effect::PersistPresets);
                assert(effects@ =~= seq![Effect::PersistPresets]);
                Ok(Outcome { snapshot: self.state.read(), effects })
            },
        }
    }

    /// Binds `action` to `hotkey` in the bindings in force. A combination
    /// that is empty or ends in `+` is refused, and nothing changes. The
    /// bindings are to be written; they are registered anew when the
    /// control surface asks for a reload.
    pub fn update_hotkey(&mut self, authorized: bool, action: String, hotkey: String) -> (r:
        Result<Outcome, CommandError>)
        ensures
            r is Ok <==> authorized && !is_malformed(hotkey@),
            match r {
                Ok(outcome) => {
                    &&& final(self)@ == (EngineView {
                        hotkeys: crate::hotkey::bound(old(self)@.hotkeys, action@, hotkey@),
                        ..old(self)@
                    })
                    &&& outcome.snapshot@ == final(self)@.state
                    &&& outcome.effects@ == seq![Effect::PersistHotkeys]
                },
                Err(e) => {
                    &&& *final(self) == *old(self)
                    &&& e == (if !authorized {
                        CommandError::Unauthorized
                    } else {
                        CommandError::Hotkey(HotkeyError::Malformed)
                    })
                },
            },
    {
        if !authorized {
            return Err(CommandError::Unauthorized);
        }
        if malformed(hotkey.as_str()) {
            return Err(CommandError::Hotkey(HotkeyError::Malformed));
        }
        self.hotkeys.insert(action, hotkey);
        let mut effects: Vec<Effect> = Vec::new();
        effects.push(Effect::PersistHotkeys);
        assert(effects@ =~= seq![Effect::PersistHotkeys]);
        Ok(Outcome { snapshot: self.state.read(), effects })
    }

    /// Reports on the hotkeys in force: for each binding one line with
    /// the action, the combination, and the combination as converted for
    /// the host's parser.
    pub fn test_hotkeys(&self, authorized: bool) -> (r: Result<Vec<String>, CommandError>)
        ensures
            match r {
                Ok(lines) => {
                    &&& authorized
                    &&& lines@.len() == self@.hotkeys.len()
                    &&& forall|i: int|
                        0 <= i < lines@.len() ==> (#[trigger] lines@[i])@ == conversion_line(
                            self@.hotkeys[i].0,
                            self@.hotkeys[i].1,
                        )
                },
                Err(e) => !authorized && e == CommandError::Unauthorized,
            },
    {
        if !authorized {
            return Err(CommandError::Unauthorized);
        }
        let mut lines: Vec<String> = Vec::new();
        let mut i: usize = 0;
        while i < self.hotkeys.bindings.len()
            invariant
                i <= self.hotkeys.bindings@.len(),
                lines@.len() == i,
                forall|j: int|
                    0 <= j < i ==> (#[trigger] lines@[j])@ == conversion_line(
                        self@.hotkeys[j].0,
                        self@.hotkeys[j].1,
                    ),
            decreases self.hotkeys.bindings@.len() - i,
        {
            let binding = &self.hotkeys.bindings[i];
            let shown = match convert_hotkey_format(binding.combo.as_str()) {
                Ok(text) => text,
                Err(e) => "ERROR: ".to_owned().concat(e.message(binding.combo.as_str()).as_str()),
            };
            let line = binding.action.clone().concat(" -> ").concat(binding.combo.as_str()).concat(
                " -> ",
            ).concat(shown.as_str());
            lines.push(line);
            i += 1;
        }
        Ok(lines)
    }

    /// Puts the four default bindings in force, to be written.
    pub fn save_default_hotkeys(&mut self, authorized: bool) -> (r: Result<Outcome, CommandError>)
        ensures
            match r {
                Ok(outcome) => {
                    &&& authorized
                    &&& final(self)@ == (EngineView { hotkeys: default_bindings(), ..old(self)@ })
                    &&& outcome.snapshot@ == final(self)@.state
                    &&& outcome.effects@ == seq![Effect::PersistHotkeys]
                },
                Err(e) => !authorized && e == CommandError::Unauthorized && *final(self) == *old(
                    self,
                ),
            },
    {
        if !authorized {
            return Err(CommandError::Unauthorized);
        }
        self.hotkeys = HotkeyMap::defaults();
        let mut effects: Vec<Effect> = Vec::new();
        effects.push(Effect::PersistHotkeys);
        assert(effects@ =~= seq![Effect::PersistHotkeys]);
        Ok(Outcome { snapshot: self.state.read(), effects })
    }

    /// Takes the bindings that were read from the hotkey file, if it could
    /// be read, and puts in force what they resolve to: the file's where
    /// it held any, else those of the active preset, else the defaults.
    pub fn reload_hotkeys(&mut self, authorized: bool, from_file: Option<HotkeyMap>) -> (r: Result<
        Outcome,
        CommandError,
    >)
        ensures
            match r {
                Ok(outcome) => {
                    &&& authorized
                    &&& final(self)@ == (EngineView {
                        hotkeys: resolved(
                            match from_file {
                                Some(m) => Some(m@),
                                None => None,
                            },
                            active_hotkeys(old(self)@.presets, old(self)@.state),
                        ),
                        ..old(self)@
                    })
                    &&& outcome.snapshot@ == final(self)@.state
                    &&& outcome.effects@ == seq![Effect::RegisterHotkeys]
                },
                Err(e) => !authorized && e == CommandError::Unauthorized && *final(self) == *old(
                    self,
                ),
            },
    {
        if !authorized {
            return Err(CommandError::Unauthorized);
        }
        let active = self.presets.get(self.state.current_preset.as_str());
        self.hotkeys = match &active {
            Some(p) => HotkeyMap::resolve(from_file, Some(&p.hotkeys)),
            None => HotkeyMap::resolve(from_file, None),
        };
        let mut effects: Vec<Effect> = Vec::new();
        effects.push(Effect::RegisterHotkeys);
        assert(effects@ =~= seq![Effect::RegisterHotkeys]);
        Ok(Outcome { snapshot: self.state.read(), effects })
    }
}

/// Whatever is done to the engine, the record is persisted before it is
/// broadcast: in every list of effects that holds both, `PersistState`
/// stands before `Broadcast`.
pub proof fn lemma_persist_precedes_broadcast(delta: int, active: bool)
    ensures
        mutation_effects().index_of(Effect::PersistState) < mutation_effects().index_of(
            Effect::Broadcast,
        ),
        step_effects(delta).index_of(Effect::PersistState) < step_effects(delta).index_of(
            Effect::Broadcast,
        ),
        load_effects().index_of(Effect::PersistState) < load_effects().index_of(Effect::Broadcast),
        active ==> save_effects(active).index_of(Effect::PersistState) < save_effects(
            active,
        ).index_of(Effect::Broadcast),
        !active ==> !save_effects(active).contains(Effect::Broadcast),
{
    assert(mutation_effects()[0] == Effect::PersistState);
    assert(mutation_effects()[1] == Effect::Broadcast);
    assert(step_effects(delta)[0] == Effect::PersistState);
    assert(step_effects(delta)[1] == Effect::Broadcast);
    assert(load_effects()[0] == Effect::PersistState);
    assert(load_effects()[1] == Effect::Broadcast);
    if active {
        assert(save_effects(active)[1] == Effect::PersistState);
        assert(save_effects(active)[2] == Effect::Broadcast);
    }
}

} // verus!
