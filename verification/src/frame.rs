//! The control frames that display clients send to the counter.
//!
//! A frame is a JSON text with a member `type`. Four types are known:
//! `toggle_goal` and `toggle_crown` carry a boolean `value`; `update` carries
//! a whole counter record, all five members of it; `request_current_data`
//! carries nothing and asks for nothing. Any other text is no frame.

use crate::json::{
    flag_member, integer_member, json_flag_member, json_integer_member, json_text_member,
    text_member,
};
use crate::state::{Mutation, MutationView, WinState, WinStateView};
use crate::text::text_eq;
use vstd::prelude::*;

verus! {

/// A control frame.
#[derive(Debug)]
pub enum ControlFrame {
    /// Show or hide the goal.
    ToggleGoal(bool),
    /// Show or hide the crown.
    ToggleCrown(bool),
    /// Replace the whole counter record.
    Update(WinState),
    /// Ask for the current record; nothing is changed and nothing is sent.
    RequestCurrentData,
}

/// What a [`ControlFrame`] is, as mathematics.
pub enum ControlFrameView {
    ToggleGoal(bool),
    ToggleCrown(bool),
    Update(WinStateView),
    RequestCurrentData,
}

impl View for ControlFrame {
    type V = ControlFrameView;

    open spec fn view(&self) -> ControlFrameView {
        match *self {
            ControlFrame::ToggleGoal(b) => ControlFrameView::ToggleGoal(b),
            ControlFrame::ToggleCrown(b) => ControlFrameView::ToggleCrown(b),
            ControlFrame::Update(s) => ControlFrameView::Update(s@),
            ControlFrame::RequestCurrentData => ControlFrameView::RequestCurrentData,
        }
    }
}

/// The members of a frame, each as far as the text holds it.
#[derive(Debug)]
pub struct FrameFields {
    pub kind: Option<String>,
    pub value: Option<bool>,
    pub win: Option<i64>,
    pub goal: Option<i64>,
    pub show_goal: Option<bool>,
    pub show_crown: Option<bool>,
    pub current_preset: Option<String>,
}

/// What a [`FrameFields`] is, as mathematics.
pub struct FrameFieldsView {
    pub kind: Option<Seq<char>>,
    pub value: Option<bool>,
    pub win: Option<i64>,
    pub goal: Option<i64>,
    pub show_goal: Option<bool>,
    pub show_crown: Option<bool>,
    pub current_preset: Option<Seq<char>>,
}

impl View for FrameFields {
    type V = FrameFieldsView;

    open spec fn view(&self) -> FrameFieldsView {
        FrameFieldsView {
            kind: match self.kind {
                Some(s) => Some(s@),
                None => None,
            },
            value: self.value,
            win: self.win,
            goal: self.goal,
            show_goal: self.show_goal,
            show_crown: self.show_crown,
            current_preset: match self.current_preset {
                Some(s) => Some(s@),
                None => None,
            },
        }
    }
}

/// The low 32 bits of `v`, read as a signed number.
pub open spec fn low_bits(v: i64) -> i32 {
    v as i32
}

impl FrameFieldsView {
    /// All five members of a counter record are there.
    pub open spec fn has_record(self) -> bool {
        &&& self.win is Some
        &&& self.goal is Some
        &&& self.show_goal is Some
        &&& self.show_crown is Some
        &&& self.current_preset is Some
    }

    /// The counter record that the members spell out. The two numbers are
    /// cut to 32 bits as they stand.
    pub open spec fn record(self) -> WinStateView {
        WinStateView {
            win: low_bits(self.win->0) as int,
            goal: low_bits(self.goal->0) as int,
            show_goal: self.show_goal->0,
            show_crown: self.show_crown->0,
            current_preset: self.current_preset->0,
        }
    }

    /// The frame that the members make up, if they make up one.
    pub open spec fn decoded(self) -> Option<ControlFrameView> {
        if self.kind is None {
            None
        } else if self.kind->0 == "toggle_goal"@ {
            match self.value {
                Some(b) => Some(ControlFrameView::ToggleGoal(b)),
                None => None,
            }
        } else if self.kind->0 == "toggle_crown"@ {
            match self.value {
                Some(b) => Some(ControlFrameView::ToggleCrown(b)),
                None => None,
            }
        } else if self.kind->0 == "request_current_data"@ {
            Some(ControlFrameView::RequestCurrentData)
        } else if self.kind->0 == "update"@ {
            if self.has_record() {
                Some(ControlFrameView::Update(self.record()))
            } else {
                None
            }
        } else {
            None
        }
    }

    /// The members that the JSON text `text` holds.
    pub open spec fn of_text(text: Seq<char>) -> FrameFieldsView {
        FrameFieldsView {
            kind: json_text_member(text, "type"@),
            value: json_flag_member(text, "value"@),
            win: json_integer_member(text, "win"@),
            goal: json_integer_member(text, "goal"@),
            show_goal: json_flag_member(text, "show_goal"@),
            show_crown: json_flag_member(text, "show_crown"@),
            current_preset: json_text_member(text, "current_preset"@),
        }
    }
}

impl ControlFrameView {
    /// The mutation that the frame asks for; `None` for a frame that asks
    /// for none.
    pub open spec fn mutation(self) -> Option<MutationView> {
        match self {
            ControlFrameView::ToggleGoal(b) => Some(MutationView::ShowGoal(b)),
            ControlFrameView::ToggleCrown(b) => Some(MutationView::ShowCrown(b)),
            ControlFrameView::Update(s) => Some(MutationView::Replace(s)),
            ControlFrameView::RequestCurrentData => None,
        }
    }
}

impl WinStateView {
    /// The record after a control frame was taken.
    pub open spec fn after_frame(self, frame: ControlFrameView) -> WinStateView {
        match frame.mutation() {
            Some(m) => self.after(m),
            None => self,
        }
    }
}

/// Taking the same frame twice leaves the record as taking it once does.
pub proof fn lemma_frame_is_idempotent(s: WinStateView, frame: ControlFrameView)
    ensures
        s.after_frame(frame).after_frame(frame) == s.after_frame(frame),
{
}

/// Cuts a 64-bit number to its low 32 bits.
fn cut(v: i64) -> (r: i32)
    ensures
        r == low_bits(v),
{
    #[verifier::truncate]
    (v as i32)
}

/// Makes a frame of its members. `None` where they make up no frame: no
/// type or an unknown one, a toggle without a boolean value, an update that
/// lacks one of the five members of the record.
pub fn decode_frame(fields: FrameFields) -> (r: Option<ControlFrame>)
    ensures
        match r {
            Some(frame) => fields@.decoded() == Some(frame@),
            None => fields@.decoded() is None,
        },
{
    let kind = match fields.kind {
        Some(k) => k,
        None => {
            return None;
        },
    };
    if text_eq(kind.as_str(), "toggle_goal") {
        match fields.value {
            Some(b) => Some(ControlFrame::ToggleGoal(b)),
            None => None,
        }
    } else if text_eq(kind.as_str(), "toggle_crown") {
        match fields.value {
            Some(b) => Some(ControlFrame::ToggleCrown(b)),
            None => None,
        }
    } else if text_eq(kind.as_str(), "request_current_data") {
        Some(ControlFrame::RequestCurrentData)
    } else if text_eq(kind.as_str(), "update") {
        match (fields.win, fields.goal, fields.show_goal, fields.show_crown, fields.current_preset) {
            (Some(win), Some(goal), Some(show_goal), Some(show_crown), Some(current_preset)) => {
                Some(
                    ControlFrame::Update(
                        WinState {
                            win: cut(win),
                            goal: cut(goal),
                            show_goal,
                            show_crown,
                            current_preset,
                        },
                    ),
                )
            },
            _ => None,
        }
    } else {
        None
    }
}

/// Reads the members of a frame out of a JSON text.
pub fn read_fields(text: &str) -> (r: FrameFields)
    ensures
        r@ == FrameFieldsView::of_text(text@),
{
    FrameFields {
        kind: text_member(text, "type"),
        value: flag_member(text, "value"),
        win: integer_member(text, "win"),
        goal: integer_member(text, "goal"),
        show_goal: flag_member(text, "show_goal"),
        show_crown: flag_member(text, "show_crown"),
        current_preset: text_member(text, "current_preset"),
    }
}

/// Reads a control frame out of a text; `None` where the text is no frame.
pub fn parse_frame(text: &str) -> (r: Option<ControlFrame>)
    ensures
        match r {
            Some(frame) => FrameFieldsView::of_text(text@).decoded() == Some(frame@),
            None => FrameFieldsView::of_text(text@).decoded() is None,
        },
{
    decode_frame(read_fields(text))
}

impl ControlFrame {
    /// The mutation that the frame asks for; `None` for a frame that asks
    /// for none.
    pub fn mutation(self) -> (r: Option<Mutation>)
        ensures
            match r {
                Some(m) => self@.mutation() == Some(m@),
                None => self@.mutation() is None,
            },
    {
        match self {
            ControlFrame::ToggleGoal(b) => Some(Mutation::ShowGoal(b)),
            ControlFrame::ToggleCrown(b) => Some(Mutation::ShowCrown(b)),
            ControlFrame::Update(s) => Some(Mutation::Replace(s)),
            ControlFrame::RequestCurrentData => None,
        }
    }
}

impl WinState {
    /// Takes a control frame. Hands back a snapshot to persist and
    /// broadcast where the frame asked for a mutation, `None` where it did
    /// not; then nothing has changed.
    pub fn take_frame(&mut self, frame: ControlFrame) -> (r: Option<WinState>)
        ensures
            final(self)@ == old(self)@.after_frame(frame@),
            match r {
                Some(snapshot) => frame@.mutation() is Some && snapshot@ == final(self)@,
                None => frame@.mutation() is None,
            },
    {
        match frame.mutation() {
            Some(m) => Some(self.apply(m)),
            None => None,
        }
    }
}

} // verus!
