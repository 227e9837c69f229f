//! Edge detection for hotkeys: one action for each physical press.
//!
//! The host may report a combination many times while it is held. Each
//! combination has a tracker with two states, idle and armed. A report
//! fires an action only if the keys are found down when sampled again, the
//! tracker is idle, and the last action for the combination lies at least
//! [`DEBOUNCE_MS`] back. Finding the keys up is what makes the tracker idle
//! again. Time is a reading of a monotonic clock, in milliseconds.

use crate::text::text_eq;
use vstd::prelude::*;

verus! {

/// The least time between two actions of one combination, in milliseconds.
pub const DEBOUNCE_MS: u64 = 100;

/// Presses that follow each other within this many milliseconds count as
/// rapid when the step is scaled.
pub const RAPID_MS: u64 = 300;

/// What is remembered of one key combination.
#[derive(Debug, Clone, Copy, PartialEq, Eq, Structural)]
pub struct KeyEventTracker {
    /// When the last accepted press was seen; `None` before the first.
    pub last_press_time: Option<u64>,
    /// How many presses were accepted, at most `u32::MAX`.
    pub press_count: u32,
    /// When the last action was fired; `None` before the first.
    pub last_execution_time: Option<u64>,
    /// Whether the combination was down when last looked at: the tracker is
    /// armed, and fires again only after it was seen up.
    pub last_key_state: bool,
}

/// The time that has passed at `now` since `then`; a reading that lies
/// before `then` counts as no time at all.
pub open spec fn elapsed(then: int, now: int) -> int {
    if now >= then {
        now - then
    } else {
        0
    }
}

/// `count` plus one, held at `u32::MAX`.
pub open spec fn bumped(count: u32) -> u32 {
    if count < u32::MAX {
        (count + 1) as u32
    } else {
        count
    }
}

impl KeyEventTracker {
    /// The tracker of a combination that was never seen.
    pub open spec fn fresh() -> KeyEventTracker {
        KeyEventTracker {
            last_press_time: None,
            press_count: 0,
            last_execution_time: None,
            last_key_state: false,
        }
    }

    /// The last action lies far enough back for another one at `now`.
    pub open spec fn rested(self, now: u64) -> bool {
        match self.last_execution_time {
            None => true,
            Some(t) => elapsed(t as int, now as int) >= 100,
        }
    }

    /// A report at `now`, with the keys sampled as `down`, fires an action.
    pub open spec fn accepts(self, down: bool, now: u64) -> bool {
        down && !self.last_key_state && self.rested(now)
    }

    /// The tracker after a report at `now` with the keys sampled as `down`.
    pub open spec fn after(self, down: bool, now: u64) -> KeyEventTracker {
        if !down {
            KeyEventTracker { last_key_state: false, ..self }
        } else if self.accepts(down, now) {
            KeyEventTracker {
                last_press_time: Some(now),
                press_count: bumped(self.press_count),
                last_execution_time: Some(now),
                last_key_state: true,
            }
        } else {
            self
        }
    }

    /// The factor by which the step would be scaled at `now`: one unless
    /// the last press lies less than 300 ms back, else by how many presses
    /// were accepted so far.
    pub open spec fn spec_dynamic_step(self, now: u64) -> int {
        let rapid = match self.last_press_time {
            None => false,
            Some(t) => elapsed(t as int, now as int) < 300,
        };
        if !rapid {
            1
        } else if 1 <= self.press_count <= 3 {
            1
        } else if 4 <= self.press_count <= 6 {
            2
        } else if 7 <= self.press_count <= 10 {
            3
        } else if 11 <= self.press_count <= 15 {
            5
        } else {
            8
        }
    }

    /// The tracker of a combination that was never seen.
    pub fn new() -> (r: KeyEventTracker)
        ensures
            r == KeyEventTracker::fresh(),
    {
        KeyEventTracker {
            last_press_time: None,
            press_count: 0,
            last_execution_time: None,
            last_key_state: false,
        }
    }

    /// Takes one report for the combination: `down` is what sampling the
    /// keys again has found, `now` the clock. Says whether an action fires.
    pub fn observe(&mut self, down: bool, now: u64) -> (fired: bool)
        ensures
            fired == old(self).accepts(down, now),
            *final(self) == old(self).after(down, now),
    {
        if !down {
            self.last_key_state = false;
            return false;
        }
        if self.last_key_state {
            return false;
        }
        let rested = match self.last_execution_time {
            None => true,
            Some(t) => now >= t && now - t >= DEBOUNCE_MS,
        };
        if !rested {
            return false;
        }
        self.last_key_state = true;
        if self.press_count < u32::MAX {
            self.press_count = self.press_count + 1;
        }
        self.last_press_time = Some(now);
        self.last_execution_time = Some(now);
        true
    }

    /// The factor by which the step would be scaled at `now`, from how
    /// often and how lately the combination was pressed: 1, 2, 3, 5 or 8.
    pub fn calculate_dynamic_step(&self, now: u64) -> (r: i32)
        ensures
            r == self.spec_dynamic_step(now),
            1 <= r <= 8,
    {
        let rapid = match self.last_press_time {
            None => false,
            Some(t) => now < t || now - t < RAPID_MS,
        };
        if !rapid {
            1
        } else if 1 <= self.press_count && self.press_count <= 3 {
            1
        } else if 4 <= self.press_count && self.press_count <= 6 {
            2
        } else if 7 <= self.press_count && self.press_count <= 10 {
            3
        } else if 11 <= self.press_count && self.press_count <= 15 {
            5
        } else {
            8
        }
    }
}

/// Whether a key is down, read off what the host's query of the key's
/// state has answered: the key is down if the most significant bit of the
/// answer is set, which makes the answer negative.
pub fn is_key_physically_pressed(raw_state: i16) -> (r: bool)
    ensures
        r == (raw_state < 0),
{
    raw_state < 0
}

/// The code under which the host samples the shift key.
pub const VK_SHIFT: i32 = 0x10;

/// The code under which the host samples the control key.
pub const VK_CONTROL: i32 = 0x11;

/// The code under which the host samples the alt key.
pub const VK_MENU: i32 = 0x12;

/// The code under which the host samples the left meta key.
pub const VK_LWIN: i32 = 0x5B;

/// The code under which the host samples the right meta key.
pub const VK_RWIN: i32 = 0x5C;

/// The code under which the host samples a key that goes by a name of
/// its own.
pub open spec fn named_key_code(name: Seq<char>) -> Option<i32> {
    if name == "Equal"@ {
        Some(0xBB)
    } else if name == "Minus"@ {
        Some(0xBD)
    } else if name == "Comma"@ {
        Some(0xBC)
    } else if name == "Period"@ {
        Some(0xBE)
    } else if name == "Slash"@ {
        Some(0xBF)
    } else if name == "Semicolon"@ {
        Some(0xBA)
    } else if name == "Quote"@ {
        Some(0xDE)
    } else if name == "BracketLeft"@ {
        Some(0xDB)
    } else if name == "Backslash"@ {
        Some(0xDC)
    } else if name == "BracketRight"@ {
        Some(0xDD)
    } else if name == "Backquote"@ {
        Some(0xC0)
    } else if name == "Space"@ {
        Some(0x20)
    } else if name == "Enter"@ {
        Some(0x0D)
    } else if name == "Tab"@ {
        Some(0x09)
    } else if name == "Escape"@ {
        Some(0x1B)
    } else if name == "Backspace"@ {
        Some(0x08)
    } else if name == "Delete"@ {
        Some(0x2E)
    } else if name == "Insert"@ {
        Some(0x2D)
    } else if name == "Home"@ {
        Some(0x24)
    } else if name == "End"@ {
        Some(0x23)
    } else if name == "PageUp"@ {
        Some(0x21)
    } else if name == "PageDown"@ {
        Some(0x22)
    } else if name == "ArrowLeft"@ {
        Some(0x25)
    } else if name == "ArrowUp"@ {
        Some(0x26)
    } else if name == "ArrowRight"@ {
        Some(0x27)
    } else if name == "ArrowDown"@ {
        Some(0x28)
    } else if name == "CapsLock"@ {
        Some(0x14)
    } else if name == "NumLock"@ {
        Some(0x90)
    } else if name == "ScrollLock"@ {
        Some(0x91)
    } else if name == "Pause"@ {
        Some(0x13)
    } else if name == "PrintScreen"@ {
        Some(0x2C)
    } else {
        None
    }
}

/// The code under which the host samples the key that the host's shortcut
/// library calls `name`: letters `KeyA` to `KeyZ`, digits `Digit0` to
/// `Digit9`, function keys `F1` to `F24`, and the keys with names of their
/// own. `None` for a key that cannot be sampled.
pub open spec fn key_code_of(name: Seq<char>) -> Option<i32> {
    if name.len() == 4 && name[0] == 'K' && name[1] == 'e' && name[2] == 'y' && 'A' <= name[3]
        && name[3] <= 'Z' {
        Some((name[3] as u32) as i32)
    } else if name.len() == 6 && name[0] == 'D' && name[1] == 'i' && name[2] == 'g' && name[3]
        == 'i' && name[4] == 't' && '0' <= name[5] && name[5] <= '9' {
        Some((name[5] as u32) as i32)
    } else if name.len() == 2 && name[0] == 'F' && '1' <= name[1] && name[1] <= '9' {
        Some((0x70 + ((name[1] as u32) - 0x31)) as i32)
    } else if name.len() == 3 && name[0] == 'F' && name[1] == '1' && '0' <= name[2] && name[2]
        <= '9' {
        Some((0x79 + ((name[2] as u32) - 0x30)) as i32)
    } else if name.len() == 3 && name[0] == 'F' && name[1] == '2' && '0' <= name[2] && name[2]
        <= '4' {
        Some((0x83 + ((name[2] as u32) - 0x30)) as i32)
    } else {
        named_key_code(name)
    }
}

/// The part of a shortcut that holds its modifiers: all up to the last
/// `+`, that included.
pub open spec fn modifiers_part(shortcut: Seq<char>) -> Seq<char> {
    match crate::text::last_index_of(shortcut, '+') {
        Some(i) => shortcut.take(i + 1),
        None => Seq::empty(),
    }
}

/// The part of a shortcut that names its key: all behind the last `+`.
pub open spec fn key_part(shortcut: Seq<char>) -> Seq<char> {
    match crate::text::last_index_of(shortcut, '+') {
        Some(i) => shortcut.skip(i + 1),
        None => shortcut,
    }
}

/// Which keys have to be sampled for a shortcut: its modifiers, and the
/// code of its key where that is a key that can be sampled.
#[derive(Debug, Clone, Copy, PartialEq, Eq)]
pub struct SampledKeys {
    pub shift: bool,
    pub control: bool,
    pub alt: bool,
    pub meta: bool,
    pub key_code: Option<i32>,
}

impl SampledKeys {
    /// The keys to sample for `shortcut`, read off the host's spelling of
    /// it: the modifiers `shift+`, `control+`, `alt+` and `meta+`, then the
    /// name of the key.
    pub open spec fn spec_for_shortcut(shortcut: Seq<char>) -> SampledKeys {
        let head = modifiers_part(shortcut);
        SampledKeys {
            shift: crate::text::contains_text(head, "shift+"@),
            control: crate::text::contains_text(head, "control+"@),
            alt: crate::text::contains_text(head, "alt+"@),
            meta: crate::text::contains_text(head, "meta+"@),
            key_code: key_code_of(key_part(shortcut)),
        }
    }

    /// Whether the combination is down, given what sampling has found for
    /// each modifier and for the key: the key and every modifier of the
    /// combination must be down. A combination whose key cannot be sampled
    /// counts as up.
    pub open spec fn spec_down(self, shift: bool, control: bool, alt: bool, meta: bool, key: bool) -> bool {
        &&& self.key_code is Some
        &&& key
        &&& self.shift ==> shift
        &&& self.control ==> control
        &&& self.alt ==> alt
        &&& self.meta ==> meta
    }

    /// The keys to sample for `shortcut`.
    pub fn for_shortcut(shortcut: &str) -> (r: SampledKeys)
        ensures
            r == SampledKeys::spec_for_shortcut(shortcut@),
    {
        let chars = crate::text::to_chars(shortcut);
        let (head, key) = match crate::text::find_last(&chars, '+') {
            Some(i) => {
                proof {
                    crate::text::lemma_last_index_of(chars@, '+');
                }
                let total: usize = chars.len();
                assert(i < total);
                let head = crate::text::slice(&chars, 0, i + 1);
                let key = crate::text::slice(&chars, i + 1, total);
                assert(chars@.subrange(0, i + 1) =~= chars@.take(i + 1));
                assert(chars@.subrange(i + 1, total as int) =~= chars@.skip(i + 1));
                (head, key)
            },
            None => (Vec::new(), chars),
        };
        SampledKeys {
            shift: crate::text::contains(&head, &crate::text::to_chars("shift+")),
            control: crate::text::contains(&head, &crate::text::to_chars("control+")),
            alt: crate::text::contains(&head, &crate::text::to_chars("alt+")),
            meta: crate::text::contains(&head, &crate::text::to_chars("meta+")),
            key_code: key_code(&key),
        }
    }

    /// Whether the combination is down, given what sampling has found for
    /// each modifier and for the key.
    pub fn down(self, shift: bool, control: bool, alt: bool, meta: bool, key: bool) -> (r: bool)
        ensures
            r == self.spec_down(shift, control, alt, meta, key),
    {
        self.key_code.is_some() && key && (!self.shift || shift) && (!self.control || control) && (
        !self.alt || alt) && (!self.meta || meta)
    }
}

/// The code of a key that goes by a name of its own.
fn named_code(name: &str) -> (r: Option<i32>)
    ensures
        r == named_key_code(name@),
{
    if text_eq(name, "Equal") {
        Some(0xBB)
    } else if text_eq(name, "Minus") {
        Some(0xBD)
    } else if text_eq(name, "Comma") {
        Some(0xBC)
    } else if text_eq(name, "Period") {
        Some(0xBE)
    } else if text_eq(name, "Slash") {
        Some(0xBF)
    } else if text_eq(name, "Semicolon") {
        Some(0xBA)
    } else if text_eq(name, "Quote") {
        Some(0xDE)
    } else if text_eq(name, "BracketLeft") {
        Some(0xDB)
    } else if text_eq(name, "Backslash") {
        Some(0xDC)
    } else if text_eq(name, "BracketRight") {
        Some(0xDD)
    } else if text_eq(name, "Backquote") {
        Some(0xC0)
    } else if text_eq(name, "Space") {
        Some(0x20)
    } else if text_eq(name, "Enter") {
        Some(0x0D)
    } else if text_eq(name, "Tab") {
        Some(0x09)
    } else if text_eq(name, "Escape") {
        Some(0x1B)
    } else if text_eq(name, "Backspace") {
        Some(0x08)
    } else if text_eq(name, "Delete") {
        Some(0x2E)
    } else if text_eq(name, "Insert") {
        Some(0x2D)
    } else if text_eq(name, "Home") {
        Some(0x24)
    } else if text_eq(name, "End") {
        Some(0x23)
    } else if text_eq(name, "PageUp") {
        Some(0x21)
    } else if text_eq(name, "PageDown") {
        Some(0x22)
    } else if text_eq(name, "ArrowLeft") {
        Some(0x25)
    } else if text_eq(name, "ArrowUp") {
        Some(0x26)
    } else if text_eq(name, "ArrowRight") {
        Some(0x27)
    } else if text_eq(name, "ArrowDown") {
        Some(0x28)
    } else if text_eq(name, "CapsLock") {
        Some(0x14)
    } else if text_eq(name, "NumLock") {
        Some(0x90)
    } else if text_eq(name, "ScrollLock") {
        Some(0x91)
    } else if text_eq(name, "Pause") {
        Some(0x13)
    } else if text_eq(name, "PrintScreen") {
        Some(0x2C)
    } else {
        None
    }
}

/// The code under which the host samples the key called `name`.
pub fn key_code(name: &Vec<char>) -> (r: Option<i32>)
    ensures
        r == key_code_of(name@),
{
    let n = name.len();
    if n == 4 && name[0] == 'K' && name[1] == 'e' && name[2] == 'y' && 'A' <= name[3] && name[3]
        <= 'Z' {
        Some((name[3] as u32) as i32)
    } else if n == 6 && name[0] == 'D' && name[1] == 'i' && name[2] == 'g' && name[3] == 'i'
        && name[4] == 't' && '0' <= name[5] && name[5] <= '9' {
        Some((name[5] as u32) as i32)
    } else if n == 2 && name[0] == 'F' && '1' <= name[1] && name[1] <= '9' {
        Some((0x70 + ((name[1] as u32) - 0x31)) as i32)
    } else if n == 3 && name[0] == 'F' && name[1] == '1' && '0' <= name[2] && name[2] <= '9' {
        Some((0x79 + ((name[2] as u32) - 0x30)) as i32)
    } else if n == 3 && name[0] == 'F' && name[1] == '2' && '0' <= name[2] && name[2] <= '4' {
        Some((0x83 + ((name[2] as u32) - 0x30)) as i32)
    } else {
        named_code(crate::text::from_chars(name).as_str())
    }
}

/// A key combination and what is remembered of it.
#[derive(Debug)]
pub struct TrackedCombo {
    pub combo: String,
    pub tracker: KeyEventTracker,
}

impl View for TrackedCombo {
    type V = (Seq<char>, KeyEventTracker);

    open spec fn view(&self) -> (Seq<char>, KeyEventTracker) {
        (self.combo@, self.tracker)
    }
}

/// The views of a run of tracked combinations, in order.
pub open spec fn combo_views(v: Seq<TrackedCombo>) -> Seq<(Seq<char>, KeyEventTracker)> {
    Seq::new(v.len(), |i: int| v[i]@)
}

/// The index of the first entry of `s` for `combo`.
pub open spec fn tracker_index(s: Seq<(Seq<char>, KeyEventTracker)>, combo: Seq<char>) -> Option<
    int,
>
    decreases s.len(),
{
    if s.len() == 0 {
        None
    } else {
        match tracker_index(s.drop_last(), combo) {
            Some(i) => Some(i),
            None => if s.last().0 == combo {
                Some(s.len() - 1)
            } else {
                None
            },
        }
    }
}

/// The map from combinations to trackers that the entries `s` stand for.
pub open spec fn trackers_of(s: Seq<(Seq<char>, KeyEventTracker)>) -> Map<
    Seq<char>,
    KeyEventTracker,
> {
    Map::new(
        |k: Seq<char>| tracker_index(s, k) is Some,
        |k: Seq<char>| s[tracker_index(s, k)->0].1,
    )
}

/// What [`tracker_index`] finds: the first index for that combination, or
/// that there is none.
proof fn lemma_tracker_index(s: Seq<(Seq<char>, KeyEventTracker)>, combo: Seq<char>)
    ensures
        match tracker_index(s, combo) {
            Some(i) => {
                &&& 0 <= i < s.len()
                &&& s[i].0 == combo
                &&& forall|j: int| 0 <= j < i ==> (#[trigger] s[j]).0 != combo
            },
            None => forall|j: int| 0 <= j < s.len() ==> (#[trigger] s[j]).0 != combo,
        },
    decreases s.len(),
{
    if s.len() > 0 {
        let init = s.drop_last();
        lemma_tracker_index(init, combo);
        assert forall|j: int| 0 <= j < init.len() implies #[trigger] s[j] == init[j] by {}
        if tracker_index(s, combo) is None {
            assert forall|j: int| 0 <= j < s.len() implies (#[trigger] s[j]).0 != combo by {
                if j < init.len() {
                    assert(init[j].0 != combo);
                }
            }
        }
    }
}

/// Entries with the same combinations at the same places are found at the
/// same indices.
proof fn lemma_same_combos(
    s: Seq<(Seq<char>, KeyEventTracker)>,
    t: Seq<(Seq<char>, KeyEventTracker)>,
    combo: Seq<char>,
)
    requires
        s.len() == t.len(),
        forall|j: int| 0 <= j < s.len() ==> (#[trigger] s[j]).0 == t[j].0,
    ensures
        tracker_index(s, combo) == tracker_index(t, combo),
    decreases s.len(),
{
    if s.len() > 0 {
        assert forall|j: int| 0 <= j < s.len() - 1 implies (#[trigger] s.drop_last()[j]).0
            == t.drop_last()[j].0 by {
            assert(s[j].0 == t[j].0);
        }
        lemma_same_combos(s.drop_last(), t.drop_last(), combo);
        assert(s[s.len() - 1].0 == t[s.len() - 1].0);
    }
}

/// The trackers of all combinations, each created when its combination is
/// first reported and kept from then on.
#[derive(Debug)]
pub struct TrackerMap {
    pub entries: Vec<TrackedCombo>,
}

impl View for TrackerMap {
    type V = Map<Seq<char>, KeyEventTracker>;

    open spec fn view(&self) -> Map<Seq<char>, KeyEventTracker> {
        trackers_of(combo_views(self.entries@))
    }
}

impl TrackerMap {
    /// What is remembered of `combo`: its tracker, or a fresh one if the
    /// combination was never reported.
    pub open spec fn tracker_for(&self, combo: Seq<char>) -> KeyEventTracker {
        if self@.contains_key(combo) {
            self@[combo]
        } else {
            KeyEventTracker::fresh()
        }
    }

    /// No combination has been reported yet.
    pub fn new() -> (r: TrackerMap)
        ensures
            r@ == Map::<Seq<char>, KeyEventTracker>::empty(),
    {
        let r = TrackerMap { entries: Vec::new() };
        assert(r@ =~= Map::<Seq<char>, KeyEventTracker>::empty());
        r
    }

    /// The index of the first entry for `combo`.
    fn index_of(&self, combo: &str) -> (r: Option<usize>)
        ensures
            match r {
                Some(i) => tracker_index(combo_views(self.entries@), combo@) == Some(i as int),
                None => tracker_index(combo_views(self.entries@), combo@) is None,
            },
    {
        let ghost s = combo_views(self.entries@);
        let mut i: usize = 0;
        while i < self.entries.len()
            invariant
                i <= self.entries@.len(),
                s == combo_views(self.entries@),
                forall|j: int| 0 <= j < i ==> (#[trigger] s[j]).0 != combo@,
            decreases self.entries@.len() - i,
        {
            if text_eq(self.entries[i].combo.as_str(), combo) {
                proof {
                    assert(s[i as int].0 == combo@);
                    lemma_tracker_index(s, combo@);
                }
                return Some(i);
            }
            i += 1;
        }
        proof {
            lemma_tracker_index(s, combo@);
        }
        None
    }

    /// A copy of what is remembered of `combo`.
    pub fn get(&self, combo: &str) -> (r: KeyEventTracker)
        ensures
            r == self.tracker_for(combo@),
    {
        proof {
            lemma_tracker_index(combo_views(self.entries@), combo@);
        }
        match self.index_of(combo) {
            Some(i) => self.entries[i].tracker,
            None => KeyEventTracker::new(),
        }
    }

    /// Takes one report of the host for `combo`: `down` is what sampling
    /// the keys again has found, `now` the clock. Says whether an action
    /// fires. Only the tracker of `combo` changes.
    pub fn notify(&mut self, combo: &str, down: bool, now: u64) -> (fired: bool)
        ensures
            fired == old(self).tracker_for(combo@).accepts(down, now),
            final(self)@ == old(self)@.insert(
                combo@,
                old(self).tracker_for(combo@).after(down, now),
            ),
    {
        let ghost before = combo_views(self.entries@);
        proof {
            lemma_tracker_index(before, combo@);
        }
        match self.index_of(combo) {
            Some(i) => {
                let mut tracker = self.entries[i].tracker;
                let fired = tracker.observe(down, now);
                self.entries[i].tracker = tracker;
                proof {
                    let after = combo_views(self.entries@);
                    assert(after =~= before.update(i as int, (combo@, tracker)));
                    assert forall|k: Seq<char>| tracker_index(after, k) == tracker_index(
                        before,
                        k,
                    ) by {
                        lemma_same_combos(after, before, k);
                    }
                    assert forall|k: Seq<char>| tracker_index(before, k) is Some && k
                        != combo@ implies after[tracker_index(before, k)->0].1
                        == before[tracker_index(before, k)->0].1 by {
                        lemma_tracker_index(before, k);
                    }
                    assert(self@ =~= trackers_of(before).insert(combo@, tracker));
                }
                fired
            },
            None => {
                let mut tracker = KeyEventTracker::new();
                let fired = tracker.observe(down, now);
                self.entries.push(TrackedCombo { combo: combo.to_owned(), tracker });
                proof {
                    let after = combo_views(self.entries@);
                    assert(after =~= before.push((combo@, tracker)));
                    assert(after.drop_last() =~= before);
                    assert forall|k: Seq<char>| tracker_index(before, k) is Some implies (
                    #[trigger] tracker_index(after, k)) == tracker_index(before, k) && after[tracker_index(
                        before,
                        k,
                    )->0] == before[tracker_index(before, k)->0] by {
                        lemma_tracker_index(before, k);
                    }
                    assert(self@ =~= trackers_of(before).insert(combo@, tracker));
                }
                fired
            },
        }
    }
}

/// One report of the host for a combination: what sampling the keys again
/// found, and when.
pub struct KeyReport {
    pub down: bool,
    pub at: u64,
}

/// The tracker after a run of reports, taken first to last.
pub open spec fn after_reports(t: KeyEventTracker, reports: Seq<KeyReport>) -> KeyEventTracker
    decreases reports.len(),
{
    if reports.len() == 0 {
        t
    } else {
        after_reports(t, reports.drop_last()).after(reports.last().down, reports.last().at)
    }
}

/// Whether report `i` of the run fires an action.
pub open spec fn fires_at(t: KeyEventTracker, reports: Seq<KeyReport>, i: int) -> bool {
    after_reports(t, reports.take(i)).accepts(reports[i].down, reports[i].at)
}

/// How many reports of the run fire an action.
pub open spec fn fired_count(t: KeyEventTracker, reports: Seq<KeyReport>) -> nat
    decreases reports.len(),
{
    if reports.len() == 0 {
        0
    } else {
        let before = fired_count(t, reports.drop_last());
        if fires_at(t, reports, reports.len() - 1) {
            before + 1
        } else {
            before
        }
    }
}

/// Every report of the run found the keys down.
pub open spec fn held_throughout(reports: Seq<KeyReport>) -> bool {
    forall|i: int| 0 <= i < reports.len() ==> (#[trigger] reports[i]).down
}

/// An armed tracker stays armed, and fires nothing, while the keys are held.
pub proof fn lemma_armed_stays_silent(t: KeyEventTracker, reports: Seq<KeyReport>)
    requires
        t.last_key_state,
        held_throughout(reports),
    ensures
        after_reports(t, reports) == t,
        fired_count(t, reports) == 0,
    decreases reports.len(),
{
    if reports.len() > 0 {
        let init = reports.drop_last();
        assert(held_throughout(init)) by {
            assert forall|i: int| 0 <= i < init.len() implies (#[trigger] init[i]).down by {
                assert(reports[i].down);
            }
        }
        lemma_armed_stays_silent(t, init);
        assert(reports.take(reports.len() - 1) =~= init);
        assert(reports[reports.len() - 1].down);
    }
}

/// The count of a run is the count of its first part plus the count of
/// the rest, taken from where the first part left the tracker.
pub proof fn lemma_fired_count_splits(t: KeyEventTracker, a: Seq<KeyReport>, b: Seq<KeyReport>)
    ensures
        after_reports(t, a + b) == after_reports(after_reports(t, a), b),
        fired_count(t, a + b) == fired_count(t, a) + fired_count(after_reports(t, a), b),
    decreases b.len(),
{
    if b.len() == 0 {
        assert(a + b =~= a);
    } else {
        let whole = a + b;
        lemma_fired_count_splits(t, a, b.drop_last());
        assert(whole.drop_last() =~= a + b.drop_last());
        assert(whole.take(whole.len() - 1) =~= whole.drop_last());
        assert(b.take(b.len() - 1) =~= b.drop_last());
        assert(whole.last() == b.last());
        assert(whole[whole.len() - 1] == b[b.len() - 1]);
    }
}

/// A combination that is held across any number of reports fires at most
/// one action; it fires exactly one, at the first report, if the tracker
/// was idle and rested when the press began.
pub proof fn lemma_held_fires_once(t: KeyEventTracker, reports: Seq<KeyReport>)
    requires
        held_throughout(reports),
    ensures
        fired_count(t, reports) <= 1,
        reports.len() > 0 && t.accepts(true, reports[0].at) ==> fired_count(t, reports) == 1
            && fires_at(t, reports, 0),
        fired_count(t, reports) == 1 ==> after_reports(t, reports).last_key_state,
    decreases reports.len(),
{
    if reports.len() > 0 {
        let init = reports.drop_last();
        let last = reports.last();
        assert(reports[reports.len() - 1].down);
        assert(held_throughout(init)) by {
            assert forall|i: int| 0 <= i < init.len() implies (#[trigger] init[i]).down by {
                assert(reports[i].down);
            }
        }
        lemma_held_fires_once(t, init);
        assert(reports.take(reports.len() - 1) =~= init);
        if init.len() > 0 {
            assert(init[0] == reports[0]);
            assert(reports.take(0) =~= init.take(0));
        } else {
            assert(reports.take(0) =~= Seq::<KeyReport>::empty());
        }
        if fired_count(t, init) == 1 {
            assert(after_reports(t, init).last_key_state);
        }
    }
}

/// Release and press again: after a report that found the keys up, a
/// press that is held fires exactly one more action, provided the last
/// action lies at least 100 ms back when the press begins.
pub proof fn lemma_release_then_press_fires_once(
    t: KeyEventTracker,
    released_at: u64,
    reports: Seq<KeyReport>,
)
    requires
        held_throughout(reports),
        reports.len() > 0,
        t.rested(reports[0].at),
    ensures
        fired_count(t.after(false, released_at), reports) == 1,
        fires_at(t.after(false, released_at), reports, 0),
{
    lemma_held_fires_once(t.after(false, released_at), reports);
}

/// A run of one report is that report.
proof fn lemma_single_report(t: KeyEventTracker, report: KeyReport)
    ensures
        after_reports(t, seq![report]) == t.after(report.down, report.at),
        fired_count(t, seq![report]) == (if t.accepts(report.down, report.at) {
            1nat
        } else {
            0nat
        }),
{
    let one = seq![report];
    assert(one.drop_last() =~= Seq::<KeyReport>::empty());
    assert(one.take(0) =~= Seq::<KeyReport>::empty());
    assert(after_reports(t, one.drop_last()) == t);
    assert(after_reports(t, one.take(0)) == t);
    assert(one.last() == report);
    assert(one[0] == report);
    assert(fired_count(t, one.drop_last()) == 0);
}

/// A press that is held leaves the tracker as its first report left it.
pub proof fn lemma_held_press_is_its_first_report(t: KeyEventTracker, reports: Seq<KeyReport>)
    requires
        held_throughout(reports),
        reports.len() > 0,
        t.accepts(true, reports[0].at),
    ensures
        after_reports(t, reports) == t.after(true, reports[0].at),
        fired_count(t, reports) == 1,
{
    let head = seq![reports[0]];
    let tail = reports.skip(1);
    assert(head + tail =~= reports);
    assert(reports[0].down);
    lemma_single_report(t, reports[0]);
    assert(held_throughout(tail)) by {
        assert forall|i: int| 0 <= i < tail.len() implies (#[trigger] tail[i]).down by {
            assert(reports[i + 1].down);
        }
    }
    lemma_armed_stays_silent(t.after(true, reports[0].at), tail);
    lemma_fired_count_splits(t, head, tail);
}

/// Press, release, press: a press that is held, a report that finds the
/// keys up, and another press that is held fire exactly two actions,
/// provided the second press begins at least 100 ms after the first.
pub proof fn lemma_press_release_press_fires_twice(
    t: KeyEventTracker,
    first: Seq<KeyReport>,
    released_at: u64,
    second: Seq<KeyReport>,
)
    requires
        held_throughout(first),
        first.len() > 0,
        t.accepts(true, first[0].at),
        held_throughout(second),
        second.len() > 0,
        second[0].at - first[0].at >= 100,
    ensures
        fired_count(t, first + seq![KeyReport { down: false, at: released_at }] + second) == 2,
{
    let release = seq![KeyReport { down: false, at: released_at }];
    let pressed = t.after(true, first[0].at);
    lemma_held_press_is_its_first_report(t, first);
    lemma_single_report(pressed, KeyReport { down: false, at: released_at });
    lemma_fired_count_splits(t, first, release);
    let released = pressed.after(false, released_at);
    lemma_held_press_is_its_first_report(released, second);
    lemma_fired_count_splits(t, first + release, second);
}

/// Once a run has fired, the tracker remembers an action that is no older
/// than that one.
proof fn lemma_last_execution(t: KeyEventTracker, reports: Seq<KeyReport>, i: int)
    requires
        0 <= i < reports.len(),
        fires_at(t, reports, i),
    ensures
        after_reports(t, reports).last_execution_time is Some,
        after_reports(t, reports).last_execution_time->0 >= reports[i].at,
    decreases reports.len(),
{
    let init = reports.drop_last();
    let n = reports.len() - 1;
    assert(reports.take(n) =~= init);
    if i < n {
        assert(init.take(i) =~= reports.take(i));
        assert(init[i] == reports[i]);
        lemma_last_execution(t, init, i);
    }
}

/// Two actions of one combination are never less than 100 ms apart,
/// whatever the host reports and however the reports are timed.
pub proof fn lemma_actions_are_spaced(
    t: KeyEventTracker,
    reports: Seq<KeyReport>,
    i: int,
    j: int,
)
    requires
        0 <= i < j < reports.len(),
        fires_at(t, reports, i),
        fires_at(t, reports, j),
    ensures
        reports[j].at - reports[i].at >= 100,
{
    let upto = reports.take(j);
    assert(upto.take(i) =~= reports.take(i));
    assert(upto[i] == reports[i]);
    lemma_last_execution(t, upto, i);
}

} // verus!
