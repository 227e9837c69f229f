//! From the key combinations that users write to the form that the host's
//! shortcut parser reads.

use crate::hotkey::{default_bindings, HotkeyAction, HotkeyMap};
use crate::text::{
    contains, contains_text, find_last, from_chars, last_index_of, replace, replaced, text_eq,
    to_chars, to_upper, uppercase,
};
use vstd::prelude::*;

verus! {

/// The text is one character that takes one byte.
pub open spec fn is_single_byte(s: Seq<char>) -> bool {
    s.len() == 1 && (s[0] as u32) < 0x80
}

/// The text is the name of a key that the host knows as it is.
pub open spec fn is_special_key(s: Seq<char>) -> bool {
    ||| s == "Enter"@
    ||| s == "Space"@
    ||| s == "Tab"@
    ||| s == "Escape"@
    ||| s == "Backspace"@
    ||| s == "Delete"@
    ||| s == "Home"@
    ||| s == "End"@
    ||| s == "PageUp"@
    ||| s == "PageDown"@
    ||| s == "Insert"@
    ||| s == "PrintScreen"@
    ||| s == "ScrollLock"@
    ||| s == "Pause"@
    ||| s == "NumLock"@
    ||| s == "CapsLock"@
    ||| s == "Equal"@
    ||| s == "Minus"@
}

/// The character is one of the letters `a` to `z` and `A` to `Z`.
pub open spec fn is_ascii_letter(c: char) -> bool {
    ('a' <= c && c <= 'z') || ('A' <= c && c <= 'Z')
}

/// The character in upper case, where it is one of the letters `a` to
/// `z`; any other one-byte character as it is.
pub open spec fn ascii_upper(c: char) -> char {
    if 'a' <= c && c <= 'z' {
        ((c as u8) - 32) as char
    } else {
        c
    }
}

/// The host's name for the key of a one-byte character: `Key` and the
/// character, a letter in upper case.
pub open spec fn key_named(letter: Seq<char>) -> Seq<char> {
    "Key"@ + seq![ascii_upper(letter[0])]
}

/// A combination with `Ctrl+` written out as `Control+`, and with `=`, `-`
/// and the blank replaced by the names of their keys. `=` and `-` are left
/// alone where the combination already holds the key's name.
pub open spec fn with_symbols_named(s: Seq<char>) -> Seq<char> {
    let a = replaced(s, "Ctrl+"@, "Control+"@);
    let b = if contains_text(a, "="@) && !contains_text(a, "Equal"@) {
        replaced(a, "="@, "Equal"@)
    } else {
        a
    };
    let c = if contains_text(b, "-"@) && !contains_text(b, "Minus"@) {
        replaced(b, "-"@, "Minus"@)
    } else {
        b
    };
    replaced(c, " "@, "Space"@)
}

/// A combination whose last part, where that is a single letter, is
/// replaced by the host's name for the letter's key.
pub open spec fn with_letter_named(s: Seq<char>) -> Seq<char> {
    match last_index_of(s, '+') {
        Some(i) => {
            let last = s.skip(i + 1);
            if is_single_byte(last) && is_ascii_letter(last[0]) {
                s.take(i + 1) + key_named(last)
            } else {
                s
            }
        },
        None => s,
    }
}

/// The form in which the host's parser reads the combination `h`.
pub open spec fn converted(h: Seq<char>) -> Seq<char> {
    if is_single_byte(h) {
        key_named(h)
    } else if h.len() > 1 && h[0] == 'F' {
        uppercase(h)
    } else if is_special_key(h) {
        h
    } else {
        with_letter_named(with_symbols_named(h))
    }
}

/// Whether the text is one character that takes one byte.
fn single_byte(s: &Vec<char>) -> (r: bool)
    ensures
        r == is_single_byte(s@),
{
    s.len() == 1 && (s[0] as u32) < 0x80
}

/// Whether the text is the name of a key that the host knows as it is.
fn special_key(s: &str) -> (r: bool)
    ensures
        r == is_special_key(s@),
{
    text_eq(s, "Enter") || text_eq(s, "Space") || text_eq(s, "Tab") || text_eq(s, "Escape")
        || text_eq(s, "Backspace") || text_eq(s, "Delete") || text_eq(s, "Home") || text_eq(
        s,
        "End",
    ) || text_eq(s, "PageUp") || text_eq(s, "PageDown") || text_eq(s, "Insert") || text_eq(
        s,
        "PrintScreen",
    ) || text_eq(s, "ScrollLock") || text_eq(s, "Pause") || text_eq(s, "NumLock") || text_eq(
        s,
        "CapsLock",
    ) || text_eq(s, "Equal") || text_eq(s, "Minus")
}

/// The host's name for the key of a one-byte character.
fn name_key(letter: &Vec<char>) -> (r: Vec<char>)
    requires
        is_single_byte(letter@),
    ensures
        r@ == key_named(letter@),
{
    let c = letter[0];
    let upper = if 'a' <= c && c <= 'z' {
        ((c as u8) - 32) as char
    } else {
        c
    };
    let mut named = to_chars("Key");
    named.push(upper);
    assert(named@ =~= key_named(letter@));
    named
}

/// Replaces `Ctrl+`, `=`, `-` and the blank as [`with_symbols_named`] says.
fn name_symbols(s: &Vec<char>) -> (r: Vec<char>)
    ensures
        r@ == with_symbols_named(s@),
{
    let a = replace(s, &to_chars("Ctrl+"), &to_chars("Control+"));
    let equal = to_chars("Equal");
    let equal_sign = to_chars("=");
    let b = if contains(&a, &equal_sign) && !contains(&a, &equal) {
        replace(&a, &equal_sign, &equal)
    } else {
        a
    };
    let minus = to_chars("Minus");
    let minus_sign = to_chars("-");
    let c = if contains(&b, &minus_sign) && !contains(&b, &minus) {
        replace(&b, &minus_sign, &minus)
    } else {
        b
    };
    replace(&c, &to_chars(" "), &to_chars("Space"))
}

/// Names the key of a trailing single letter as [`with_letter_named`] says.
fn name_letter(s: Vec<char>) -> (r: Vec<char>)
    ensures
        r@ == with_letter_named(s@),
{
    match find_last(&s, '+') {
        None => s,
        Some(i) => {
            proof {
                crate::text::lemma_last_index_of(s@, '+');
            }
            let total: usize = s.len();
            assert(i < total);
            let mut last: Vec<char> = Vec::new();
            let mut k: usize = i + 1;
            while k < s.len()
                invariant
                    i + 1 <= k <= s@.len(),
                    last@ == s@.subrange(i + 1, k as int),
                decreases s@.len() - k,
            {
                last.push(s[k]);
                assert(s@.subrange(i + 1, k + 1) =~= s@.subrange(i + 1, k as int).push(
                    s@[k as int],
                ));
                k += 1;
            }
            assert(s@.subrange(i + 1, s@.len() as int) =~= s@.skip(i + 1));
            if single_byte(&last) && (('a' <= last[0] && last[0] <= 'z') || ('A' <= last[0]
                && last[0] <= 'Z')) {
                let key = name_key(&last);
                let mut out: Vec<char> = Vec::new();
                let mut n: usize = 0;
                while n <= i
                    invariant
                        n <= i + 1 <= s@.len() <= usize::MAX,
                        out@ == s@.take(n as int),
                    decreases i + 1 - n,
                {
                    out.push(s[n]);
                    assert(s@.take(n + 1) =~= s@.take(n as int).push(s@[n as int]));
                    n += 1;
                }
                let mut m: usize = 0;
                while m < key.len()
                    invariant
                        m <= key@.len(),
                        out@ == s@.take(i + 1) + key@.take(m as int),
                    decreases key@.len() - m,
                {
                    out.push(key[m]);
                    assert(s@.take(i + 1) + key@.take(m + 1) =~= (s@.take(i + 1) + key@.take(
                        m as int,
                    )).push(key@[m as int]));
                    m += 1;
                }
                assert(key@.take(key@.len() as int) =~= key@);
                out
            } else {
                s
            }
        },
    }
}

/// Why a key combination cannot be bound.
#[derive(Debug, Clone, Copy, PartialEq, Eq, Structural)]
pub enum HotkeyError {
    /// The combination is empty, or it ends in `+` so that no key follows
    /// the modifiers.
    Malformed,
}

impl HotkeyError {
    /// What the control surface is told when the combination `hotkey` was
    /// refused for this reason.
    pub open spec fn spec_message(self, hotkey: Seq<char>) -> Seq<char> {
        "Invalid hotkey format: '"@ + hotkey + "'"@
    }

    /// What the control surface is told when the combination `hotkey` was
    /// refused for this reason.
    pub fn message(self, hotkey: &str) -> (r: String)
        ensures
            r@ == self.spec_message(hotkey@),
    {
        "Invalid hotkey format: '".to_owned().concat(hotkey).concat("'")
    }
}

/// The combination names no key: it is empty, or it ends in `+`.
pub open spec fn is_malformed(h: Seq<char>) -> bool {
    h.len() == 0 || h.last() == '+'
}

/// What converting the combination `h` gives: an error for a malformed
/// one, else the form in which the host's parser reads it.
pub open spec fn conversion(h: Seq<char>) -> Result<Seq<char>, HotkeyError> {
    if is_malformed(h) {
        Err(HotkeyError::Malformed)
    } else {
        Ok(converted(h))
    }
}

/// Whether the combination names no key.
pub fn malformed(hotkey: &str) -> (r: bool)
    ensures
        r == is_malformed(hotkey@),
{
    let chars = to_chars(hotkey);
    chars.len() == 0 || chars[chars.len() - 1] == '+'
}

/// Converts a key combination as users write it (`Alt+=`, `Ctrl+a`, `q`)
/// into the form that the host's shortcut parser reads (`Alt+Equal`,
/// `Control+KeyA`, `KeyQ`). A combination that is empty or ends in `+` is
/// refused.
pub fn convert_hotkey_format(hotkey: &str) -> (r: Result<String, HotkeyError>)
    ensures
        match r {
            Ok(text) => conversion(hotkey@) == Ok::<Seq<char>, HotkeyError>(text@),
            Err(e) => conversion(hotkey@) == Err::<Seq<char>, HotkeyError>(e),
        },
{
    let chars = to_chars(hotkey);
    if chars.len() == 0 || chars[chars.len() - 1] == '+' {
        return Err(HotkeyError::Malformed);
    }
    if single_byte(&chars) {
        return Ok(from_chars(&name_key(&chars)));
    }
    if chars.len() > 1 && chars[0] == 'F' {
        return Ok(to_upper(hotkey));
    }
    if special_key(hotkey) {
        return Ok(hotkey.to_owned());
    }
    let named = name_letter(name_symbols(&chars));
    Ok(from_chars(&named))
}

/// The spelling that the host's shortcut library gives to a combination:
/// what `HotKey::from_str` followed by `HotKey::into_string` yields, and
/// `None` where the parser refuses the text. The parser reads nothing but
/// its text; the one thing that it takes from outside is fixed when the
/// crate is built, the target for which `CmdOrCtrl` stands.
pub uninterp spec fn host_shortcut(text: Seq<char>) -> Option<Seq<char>>;

/// Parses a combination with `HotKey::from_str` of the host's shortcut
/// library and writes the result back with `HotKey::into_string`.
#[verifier::external_body]
fn parse_shortcut(text: &str) -> (r: Option<String>)
    ensures
        match r {
            Some(s) => host_shortcut(text@) == Some(s@),
            None => host_shortcut(text@) is None,
        },
{
    text.parse::<global_hotkey::hotkey::HotKey>().ok().map(|key| key.into_string())
}

/// A shortcut that the host accepted, in the host's spelling, and the name
/// of the action that it stands for.
#[derive(Debug)]
pub struct PlannedShortcut {
    pub shortcut: String,
    pub action: String,
}

impl View for PlannedShortcut {
    type V = (Seq<char>, Seq<char>);

    open spec fn view(&self) -> (Seq<char>, Seq<char>) {
        (self.shortcut@, self.action@)
    }
}

/// The views of a run of planned shortcuts, in order.
pub open spec fn planned_views(v: Seq<PlannedShortcut>) -> Seq<(Seq<char>, Seq<char>)> {
    Seq::new(v.len(), |i: int| v[i]@)
}

/// The views of what the host made of each candidate.
pub open spec fn parsed_views(v: Seq<Option<String>>) -> Seq<Option<Seq<char>>> {
    Seq::new(
        v.len(),
        |i: int|
            match v[i] {
                Some(s) => Some(s@),
                None => None,
            },
    )
}

/// What the host made of candidate `i`; a candidate that it was not asked
/// about counts as refused.
pub open spec fn parsed_at(parsed: Seq<Option<Seq<char>>>, i: int) -> Option<Seq<char>> {
    if 0 <= i < parsed.len() {
        parsed[i]
    } else {
        None
    }
}

/// The combinations of the bindings, each in the form that the host's
/// parser reads; `None` for a malformed one.
pub open spec fn candidates_of(bindings: Seq<(Seq<char>, Seq<char>)>) -> Seq<Option<Seq<char>>> {
    Seq::new(
        bindings.len(),
        |i: int|
            match conversion(bindings[i].1) {
                Ok(text) => Some(text),
                Err(_) => None,
            },
    )
}

/// What the host's parser makes of each candidate; a combination that
/// was malformed is not shown to it and counts as refused.
pub open spec fn host_answers(candidates: Seq<Option<Seq<char>>>) -> Seq<Option<Seq<char>>> {
    Seq::new(
        candidates.len(),
        |i: int|
            match candidates[i] {
                Some(text) => host_shortcut(text),
                None => None,
            },
    )
}

/// The shortcuts to register: for each binding whose combination the host
/// accepted, the host's spelling of it with the binding's action. Bindings
/// that the host refused are dropped, the others keep their order.
pub open spec fn planned(
    bindings: Seq<(Seq<char>, Seq<char>)>,
    parsed: Seq<Option<Seq<char>>>,
) -> Seq<(Seq<char>, Seq<char>)>
    decreases bindings.len(),
{
    if bindings.len() == 0 {
        Seq::empty()
    } else {
        let before = planned(bindings.drop_last(), parsed);
        match parsed_at(parsed, bindings.len() - 1) {
            Some(s) => before.push((s, bindings.last().0)),
            None => before,
        }
    }
}

/// The name of the action that a plan gives to `shortcut`: that of the
/// last entry for it.
pub open spec fn action_name_for(plan: Seq<(Seq<char>, Seq<char>)>, shortcut: Seq<char>) -> Option<
    Seq<char>,
>
    decreases plan.len(),
{
    if plan.len() == 0 {
        None
    } else if plan.last().0 == shortcut {
        Some(plan.last().1)
    } else {
        action_name_for(plan.drop_last(), shortcut)
    }
}

/// The plan for a set of bindings: the shortcuts that the host accepted of
/// them, or, where it accepted none, those that it accepted of the four
/// default bindings.
pub open spec fn plan_of(
    bindings: Seq<(Seq<char>, Seq<char>)>,
    parsed: Seq<Option<Seq<char>>>,
    parsed_defaults: Seq<Option<Seq<char>>>,
) -> RegistrationPlanView {
    let own = planned(bindings, parsed);
    if own.len() > 0 {
        RegistrationPlanView { shortcuts: own, fallback: false }
    } else {
        RegistrationPlanView {
            shortcuts: planned(default_bindings(), parsed_defaults),
            fallback: true,
        }
    }
}

/// The shortcuts to register with the host, and whether they are the
/// defaults standing in for bindings of which the host accepted none.
#[derive(Debug)]
pub struct RegistrationPlan {
    pub shortcuts: Vec<PlannedShortcut>,
    pub fallback: bool,
}

/// What a [`RegistrationPlan`] is, as mathematics.
pub struct RegistrationPlanView {
    pub shortcuts: Seq<(Seq<char>, Seq<char>)>,
    pub fallback: bool,
}

impl View for RegistrationPlan {
    type V = RegistrationPlanView;

    open spec fn view(&self) -> RegistrationPlanView {
        RegistrationPlanView {
            shortcuts: planned_views(self.shortcuts@),
            fallback: self.fallback,
        }
    }
}

/// What to do once the host has answered a registration.
#[derive(Debug, Clone, Copy, PartialEq, Eq, Structural)]
pub enum RegistrationStep {
    /// The shortcuts are registered.
    Done,
    /// The host refused the batch: register the four defaults instead.
    RegisterDefaults,
    /// The host refused the defaults too: go on without hotkeys.
    GiveUp,
}

/// The combinations of the bindings, each converted for the host's
/// parser; `None` for a malformed one.
pub fn candidates(bindings: &HotkeyMap) -> (r: Vec<Option<String>>)
    ensures
        parsed_views(r@) == candidates_of(bindings@),
{
    let mut out: Vec<Option<String>> = Vec::new();
    let mut i: usize = 0;
    while i < bindings.bindings.len()
        invariant
            i <= bindings.bindings@.len(),
            out@.len() == i,
            forall|j: int|
                0 <= j < i ==> (#[trigger] parsed_views(out@)[j]) == candidates_of(bindings@)[j],
        decreases bindings.bindings@.len() - i,
    {
        let ghost before = out@;
        let candidate = match convert_hotkey_format(bindings.bindings[i].combo.as_str()) {
            Ok(text) => Some(text),
            Err(_) => None,
        };
        out.push(candidate);
        proof {
            assert forall|j: int| 0 <= j < i + 1 implies (#[trigger] parsed_views(out@)[j])
                == candidates_of(bindings@)[j] by {
                if j < i {
                    assert(out@[j] == before[j]);
                    assert(parsed_views(before)[j] == candidates_of(bindings@)[j]);
                }
            }
        }
        i += 1;
    }
    assert(parsed_views(out@) =~= candidates_of(bindings@));
    out
}

/// Asks the host's parser about each candidate in turn.
fn parse_all(texts: &Vec<Option<String>>) -> (r: Vec<Option<String>>)
    ensures
        parsed_views(r@) == host_answers(parsed_views(texts@)),
{
    let ghost wanted = host_answers(parsed_views(texts@));
    let mut out: Vec<Option<String>> = Vec::new();
    let mut i: usize = 0;
    while i < texts.len()
        invariant
            i <= texts@.len(),
            out@.len() == i,
            wanted == host_answers(parsed_views(texts@)),
            forall|j: int| 0 <= j < i ==> (#[trigger] parsed_views(out@)[j]) == wanted[j],
        decreases texts@.len() - i,
    {
        let ghost before = out@;
        let answer = match &texts[i] {
            Some(text) => parse_shortcut(text.as_str()),
            None => None,
        };
        out.push(answer);
        proof {
            assert forall|j: int| 0 <= j < i + 1 implies (#[trigger] parsed_views(out@)[j])
                == wanted[j] by {
                if j < i {
                    assert(out@[j] == before[j]);
                    assert(parsed_views(before)[j] == wanted[j]);
                }
            }
        }
        i += 1;
    }
    assert(parsed_views(out@) =~= wanted);
    out
}

/// The shortcuts to register for `bindings`, given what the host's parser
/// made of each binding's combination.
pub fn shortcuts_from(bindings: &HotkeyMap, parsed: &Vec<Option<String>>) -> (r: Vec<
    PlannedShortcut,
>)
    ensures
        planned_views(r@) == planned(bindings@, parsed_views(parsed@)),
{
    let ghost all = bindings@;
    let ghost answers = parsed_views(parsed@);
    let mut out: Vec<PlannedShortcut> = Vec::new();
    let mut i: usize = 0;
    assert(all.take(0) =~= Seq::<(Seq<char>, Seq<char>)>::empty());
    assert(planned_views(out@) =~= planned(all.take(0), answers));
    while i < bindings.bindings.len()
        invariant
            i <= bindings.bindings@.len(),
            all == bindings@,
            answers == parsed_views(parsed@),
            planned_views(out@) == planned(all.take(i as int), answers),
        decreases bindings.bindings@.len() - i,
    {
        let ghost before = planned_views(out@);
        proof {
            assert(all.take(i + 1).drop_last() =~= all.take(i as int));
            assert(all.take(i + 1).last() == all[i as int]);
        }
        if i < parsed.len() {
            match &parsed[i] {
                Some(s) => {
                    out.push(
                        PlannedShortcut {
                            shortcut: s.clone(),
                            action: bindings.bindings[i].action.clone(),
                        },
                    );
                    assert(planned_views(out@) =~= before.push((s@, all[i as int].0)));
                },
                None => {},
            }
        }
        i += 1;
    }
    assert(all.take(all.len() as int) =~= all);
    out
}

impl RegistrationPlan {
    /// The plan for `bindings`, given what the host's parser made of each
    /// of their combinations and of each of the four default ones.
    pub fn from_answers(
        bindings: &HotkeyMap,
        parsed: &Vec<Option<String>>,
        parsed_defaults: &Vec<Option<String>>,
    ) -> (r: RegistrationPlan)
        ensures
            r@ == plan_of(bindings@, parsed_views(parsed@), parsed_views(parsed_defaults@)),
    {
        let own = shortcuts_from(bindings, parsed);
        if own.len() > 0 {
            RegistrationPlan { shortcuts: own, fallback: false }
        } else {
            RegistrationPlan {
                shortcuts: shortcuts_from(&HotkeyMap::defaults(), parsed_defaults),
                fallback: true,
            }
        }
    }

    /// The plan for the four default bindings alone: those of them that
    /// the host's parser accepts.
    pub fn defaults() -> (r: RegistrationPlan)
        ensures
            r@.fallback,
            r@.shortcuts == planned(
                default_bindings(),
                host_answers(candidates_of(default_bindings())),
            ),
    {
        let bindings = HotkeyMap::defaults();
        let answers = parse_all(&candidates(&bindings));
        let shortcuts = shortcuts_from(&bindings, &answers);
        RegistrationPlan { shortcuts, fallback: true }
    }

    /// The name of the action that the plan gives to `shortcut`.
    pub fn action_name(&self, shortcut: &str) -> (r: Option<String>)
        ensures
            match r {
                Some(name) => action_name_for(self@.shortcuts, shortcut@) == Some(name@),
                None => action_name_for(self@.shortcuts, shortcut@) is None,
            },
    {
        let ghost plan = self@.shortcuts;
        let mut i: usize = self.shortcuts.len();
        assert(plan.take(plan.len() as int) =~= plan);
        while i > 0
            invariant
                i <= self.shortcuts@.len(),
                plan == self@.shortcuts,
                action_name_for(plan, shortcut@) == action_name_for(plan.take(i as int), shortcut@),
            decreases i,
        {
            assert(plan.take(i as int).last() == plan[i - 1]);
            assert(plan.take(i as int).drop_last() =~= plan.take(i - 1));
            if text_eq(self.shortcuts[i - 1].shortcut.as_str(), shortcut) {
                return Some(self.shortcuts[i - 1].action.clone());
            }
            i -= 1;
        }
        None
    }

    /// The action that the plan gives to `shortcut`; `None` where the plan
    /// does not hold the shortcut or names an action that does not exist.
    pub fn action_for(&self, shortcut: &str) -> (r: Option<HotkeyAction>)
        ensures
            r == match action_name_for(self@.shortcuts, shortcut@) {
                Some(name) => HotkeyAction::named(name),
                None => None,
            },
    {
        match self.action_name(shortcut) {
            Some(name) => HotkeyAction::from_name(name.as_str()),
            None => None,
        }
    }

    /// What to do once the host has answered the registration of this
    /// plan: nothing more if it accepted, the defaults if it refused the
    /// bindings, and nothing at all if it refused the defaults.
    pub fn after_answer(&self, accepted: bool) -> (r: RegistrationStep)
        ensures
            r == (if accepted {
                RegistrationStep::Done
            } else if self.fallback {
                RegistrationStep::GiveUp
            } else {
                RegistrationStep::RegisterDefaults
            }),
    {
        if accepted {
            RegistrationStep::Done
        } else if self.fallback {
            RegistrationStep::GiveUp
        } else {
            RegistrationStep::RegisterDefaults
        }
    }
}

/// Plans the registration of `bindings`: each combination is converted and
/// handed to the host's parser, those that are malformed or that the parser
/// refuses are dropped, and the four defaults stand in where nothing is
/// left.
pub fn plan_registration(bindings: &HotkeyMap) -> (r: RegistrationPlan)
    ensures
        r@ == plan_of(
            bindings@,
            host_answers(candidates_of(bindings@)),
            host_answers(candidates_of(default_bindings())),
        ),
{
    let parsed = parse_all(&candidates(bindings));
    let parsed_defaults = parse_all(&candidates(&HotkeyMap::defaults()));
    RegistrationPlan::from_answers(bindings, &parsed, &parsed_defaults)
}

} // verus!
