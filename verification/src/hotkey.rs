//! Hotkey bindings: which key combination triggers which counter action.

use crate::text::text_eq;
use vstd::prelude::*;

verus! {

/// The pair of key combinations that a preset carries.
#[derive(Debug)]
pub struct HotkeyConfig {
    pub increase: String,
    pub decrease: String,
    pub step_size: i32,
}

/// What a [`HotkeyConfig`] is, as mathematics.
pub struct HotkeyConfigView {
    pub increase: Seq<char>,
    pub decrease: Seq<char>,
    pub step_size: int,
}

impl HotkeyConfigView {
    /// The bindings that apply when nothing else is configured.
    pub open spec fn initial() -> HotkeyConfigView {
        HotkeyConfigView { increase: "Alt+Equal"@, decrease: "Alt+Minus"@, step_size: 1 }
    }
}

impl View for HotkeyConfig {
    type V = HotkeyConfigView;

    open spec fn view(&self) -> HotkeyConfigView {
        HotkeyConfigView {
            increase: self.increase@,
            decrease: self.decrease@,
            step_size: self.step_size as int,
        }
    }
}

impl Clone for HotkeyConfig {
    fn clone(&self) -> (r: Self)
        ensures
            r@ == self@,
    {
        HotkeyConfig {
            increase: self.increase.clone(),
            decrease: self.decrease.clone(),
            step_size: self.step_size,
        }
    }
}

impl Default for HotkeyConfig {
    fn default() -> (r: Self)
        ensures
            r@ == HotkeyConfigView::initial(),
    {
        HotkeyConfig {
            increase: "Alt+Equal".to_owned(),
            decrease: "Alt+Minus".to_owned(),
            step_size: 1,
        }
    }
}

impl PartialEq for HotkeyConfig {
    fn eq(&self, other: &Self) -> (r: bool) {
        self.increase == other.increase && self.decrease == other.decrease && self.step_size
            == other.step_size
    }
}

impl vstd::std_specs::cmp::PartialEqSpecImpl for HotkeyConfig {
    open spec fn obeys_eq_spec() -> bool {
        true
    }

    open spec fn eq_spec(&self, other: &Self) -> bool {
        self@ == other@
    }
}

/// What a hotkey does to the counter.
#[derive(Debug, Clone, Copy, PartialEq, Eq, Structural)]
pub enum HotkeyAction {
    /// `win` goes up by one.
    Increment,
    /// `win` goes down by one.
    Decrement,
    /// `win` goes up by ten.
    Increment10,
    /// `win` goes down by ten.
    Decrement10,
}

impl HotkeyAction {
    /// The action that a binding's name stands for.
    pub open spec fn named(name: Seq<char>) -> Option<HotkeyAction> {
        if name == "increment"@ {
            Some(HotkeyAction::Increment)
        } else if name == "decrement"@ {
            Some(HotkeyAction::Decrement)
        } else if name == "increment10"@ {
            Some(HotkeyAction::Increment10)
        } else if name == "decrement10"@ {
            Some(HotkeyAction::Decrement10)
        } else {
            None
        }
    }

    /// The direction of the action: `1` up, `-1` down.
    pub open spec fn spec_delta(self) -> int {
        match self {
            HotkeyAction::Increment | HotkeyAction::Increment10 => 1,
            HotkeyAction::Decrement | HotkeyAction::Decrement10 => -1,
        }
    }

    /// How far one press moves the counter.
    pub open spec fn spec_step(self) -> int {
        match self {
            HotkeyAction::Increment | HotkeyAction::Decrement => 1,
            HotkeyAction::Increment10 | HotkeyAction::Decrement10 => 10,
        }
    }

    /// The action that a binding's name stands for; names other than the
    /// four known ones stand for none.
    pub fn from_name(name: &str) -> (r: Option<HotkeyAction>)
        ensures
            r == HotkeyAction::named(name@),
    {
        if text_eq(name, "increment") {
            Some(HotkeyAction::Increment)
        } else if text_eq(name, "decrement") {
            Some(HotkeyAction::Decrement)
        } else if text_eq(name, "increment10") {
            Some(HotkeyAction::Increment10)
        } else if text_eq(name, "decrement10") {
            Some(HotkeyAction::Decrement10)
        } else {
            None
        }
    }

    /// The direction of the action: `1` up, `-1` down.
    pub fn delta(self) -> (r: i32)
        ensures
            r == self.spec_delta(),
    {
        match self {
            HotkeyAction::Increment | HotkeyAction::Increment10 => 1,
            HotkeyAction::Decrement | HotkeyAction::Decrement10 => -1,
        }
    }

    /// How far one press moves the counter.
    pub fn step(self) -> (r: i32)
        ensures
            r == self.spec_step(),
    {
        match self {
            HotkeyAction::Increment | HotkeyAction::Decrement => 1,
            HotkeyAction::Increment10 | HotkeyAction::Decrement10 => 10,
        }
    }
}

/// One binding: the name of an action and the key combination for it.
#[derive(Debug)]
pub struct HotkeyBinding {
    pub action: String,
    pub combo: String,
}

impl View for HotkeyBinding {
    type V = (Seq<char>, Seq<char>);

    open spec fn view(&self) -> (Seq<char>, Seq<char>) {
        (self.action@, self.combo@)
    }
}

impl Clone for HotkeyBinding {
    fn clone(&self) -> (r: Self)
        ensures
            r@ == self@,
    {
        HotkeyBinding { action: self.action.clone(), combo: self.combo.clone() }
    }
}

/// The views of a run of bindings, in order.
pub open spec fn binding_views(v: Seq<HotkeyBinding>) -> Seq<(Seq<char>, Seq<char>)> {
    Seq::new(v.len(), |i: int| v[i]@)
}

/// The index of the first binding of `s` for `action`.
pub open spec fn binding_index(s: Seq<(Seq<char>, Seq<char>)>, action: Seq<char>) -> Option<int>
    decreases s.len(),
{
    if s.len() == 0 {
        None
    } else {
        match binding_index(s.drop_last(), action) {
            Some(i) => Some(i),
            None => if s.last().0 == action {
                Some(s.len() - 1)
            } else {
                None
            },
        }
    }
}

/// The combination that `s` binds to `action`.
pub open spec fn combo_for(s: Seq<(Seq<char>, Seq<char>)>, action: Seq<char>) -> Option<
    Seq<char>,
> {
    match binding_index(s, action) {
        Some(i) => Some(s[i].1),
        None => None,
    }
}

/// `s` with `action` bound to `combo`: an earlier binding for the action is
/// overwritten where it stands, a new one goes to the end.
pub open spec fn bound(s: Seq<(Seq<char>, Seq<char>)>, action: Seq<char>, combo: Seq<char>) -> Seq<
    (Seq<char>, Seq<char>),
> {
    match binding_index(s, action) {
        Some(i) => s.update(i, (action, combo)),
        None => s.push((action, combo)),
    }
}

/// The four bindings that apply when nothing else is configured.
pub open spec fn default_bindings() -> Seq<(Seq<char>, Seq<char>)> {
    seq![
        ("increment"@, "Alt+Equal"@),
        ("decrement"@, "Alt+Minus"@),
        ("increment10"@, "Shift+Alt+Equal"@),
        ("decrement10"@, "Shift+Alt+Minus"@),
    ]
}

/// The four bindings that a preset's hotkeys stand for: its two
/// combinations for single steps, and the same with `Shift+` for tens.
pub open spec fn bindings_of(cfg: HotkeyConfigView) -> Seq<(Seq<char>, Seq<char>)> {
    seq![
        ("increment"@, cfg.increase),
        ("decrement"@, cfg.decrease),
        ("increment10"@, "Shift+"@ + cfg.increase),
        ("decrement10"@, "Shift+"@ + cfg.decrease),
    ]
}

/// The bindings in force: those of the hotkey file where it holds any,
/// else those of the active preset where there is one, else the defaults.
pub open spec fn resolved(
    from_file: Option<Seq<(Seq<char>, Seq<char>)>>,
    active: Option<HotkeyConfigView>,
) -> Seq<(Seq<char>, Seq<char>)> {
    if from_file is Some && from_file->0.len() > 0 {
        from_file->0
    } else if active is Some {
        bindings_of(active->0)
    } else {
        default_bindings()
    }
}

/// What [`binding_index`] finds: the first index bound to that action, or
/// that there is none.
pub proof fn lemma_binding_index(s: Seq<(Seq<char>, Seq<char>)>, action: Seq<char>)
    ensures
        match binding_index(s, action) {
            Some(i) => {
                &&& 0 <= i < s.len()
                &&& s[i].0 == action
                &&& forall|j: int| 0 <= j < i ==> (#[trigger] s[j]).0 != action
            },
            None => forall|j: int| 0 <= j < s.len() ==> (#[trigger] s[j]).0 != action,
        },
    decreases s.len(),
{
    if s.len() > 0 {
        let init = s.drop_last();
        lemma_binding_index(init, action);
        assert forall|j: int| 0 <= j < init.len() implies #[trigger] s[j] == init[j] by {}
        if binding_index(s, action) is None {
            assert forall|j: int| 0 <= j < s.len() implies (#[trigger] s[j]).0 != action by {
                if j < init.len() {
                    assert(init[j].0 != action);
                }
            }
        }
    }
}

/// The bindings from action names to key combinations, in a fixed order.
#[derive(Debug)]
pub struct HotkeyMap {
    pub bindings: Vec<HotkeyBinding>,
}

impl View for HotkeyMap {
    type V = Seq<(Seq<char>, Seq<char>)>;

    open spec fn view(&self) -> Seq<(Seq<char>, Seq<char>)> {
        binding_views(self.bindings@)
    }
}

impl Clone for HotkeyMap {
    fn clone(&self) -> (r: Self)
        ensures
            r@ == self@,
    {
        let mut bindings: Vec<HotkeyBinding> = Vec::new();
        let mut i: usize = 0;
        while i < self.bindings.len()
            invariant
                i <= self.bindings@.len(),
                bindings@.len() == i,
                forall|j: int| 0 <= j < i ==> (#[trigger] bindings@[j])@ == self.bindings@[j]@,
            decreases self.bindings@.len() - i,
        {
            bindings.push(self.bindings[i].clone());
            i += 1;
        }
        let r = HotkeyMap { bindings };
        assert(r@ =~= self@);
        r
    }
}

impl HotkeyMap {
    /// No bindings.
    pub fn new() -> (r: HotkeyMap)
        ensures
            r@ == Seq::<(Seq<char>, Seq<char>)>::empty(),
    {
        let r = HotkeyMap { bindings: Vec::new() };
        assert(r@ =~= Seq::<(Seq<char>, Seq<char>)>::empty());
        r
    }

    /// How many bindings there are.
    pub fn len(&self) -> (n: usize)
        ensures
            n == self@.len(),
    {
        self.bindings.len()
    }

    /// Whether there are no bindings.
    pub fn is_empty(&self) -> (r: bool)
        ensures
            r == (self@.len() == 0),
    {
        self.bindings.len() == 0
    }

    /// The index of the first binding for `action`.
    fn index_of(&self, action: &str) -> (r: Option<usize>)
        ensures
            match r {
                Some(i) => binding_index(self@, action@) == Some(i as int),
                None => binding_index(self@, action@) is None,
            },
    {
        let mut i: usize = 0;
        while i < self.bindings.len()
            invariant
                i <= self.bindings@.len(),
                forall|j: int| 0 <= j < i ==> (#[trigger] self@[j]).0 != action@,
            decreases self.bindings@.len() - i,
        {
            if text_eq(self.bindings[i].action.as_str(), action) {
                proof {
                    assert(self@[i as int].0 == action@);
                    lemma_binding_index(self@, action@);
                }
                return Some(i);
            }
            i += 1;
        }
        proof {
            lemma_binding_index(self@, action@);
        }
        None
    }

    /// The combination bound to `action`, if any.
    pub fn get(&self, action: &str) -> (r: Option<String>)
        ensures
            match combo_for(self@, action@) {
                Some(c) => r is Some && r->0@ == c,
                None => r is None,
            },
    {
        proof {
            lemma_binding_index(self@, action@);
        }
        match self.index_of(action) {
            Some(i) => Some(self.bindings[i].combo.clone()),
            None => None,
        }
    }

    /// Binds `action` to `combo`, overwriting an earlier binding for it.
    pub fn insert(&mut self, action: String, combo: String)
        ensures
            final(self)@ == bound(old(self)@, action@, combo@),
            combo_for(final(self)@, action@) == Some(combo@),
    {
        let ghost before = self@;
        proof {
            lemma_binding_index(before, action@);
        }
        match self.index_of(action.as_str()) {
            Some(i) => {
                self.bindings[i].combo = combo;
                assert(self@ =~= before.update(i as int, (action@, combo@)));
            },
            None => {
                self.bindings.push(HotkeyBinding { action, combo });
                assert(self@ =~= before.push((action@, combo@)));
            },
        }
        proof {
            lemma_binding_index(self@, action@);
            match binding_index(self@, action@) {
                Some(k) => {
                    match binding_index(before, action@) {
                        Some(i) => {
                            assert(self@[i].0 == action@);
                            if k < i {
                                assert(before[k].0 != action@);
                                assert(self@[k] == before[k]);
                            }
                        },
                        None => {
                            assert(self@[before.len() as int].0 == action@);
                            if k < before.len() {
                                assert(before[k].0 != action@);
                                assert(self@[k] == before[k]);
                            }
                        },
                    }
                },
                None => {
                    match binding_index(before, action@) {
                        Some(i) => {
                            assert(self@[i].0 == action@);
                        },
                        None => {
                            assert(self@[before.len() as int].0 == action@);
                        },
                    }
                },
            }
        }
    }

    /// The four bindings that apply when nothing else is configured.
    pub fn defaults() -> (r: HotkeyMap)
        ensures
            r@ == default_bindings(),
    {
        let mut bindings: Vec<HotkeyBinding> = Vec::new();
        bindings.push(
            HotkeyBinding { action: "increment".to_owned(), combo: "Alt+Equal".to_owned() },
        );
        bindings.push(
            HotkeyBinding { action: "decrement".to_owned(), combo: "Alt+Minus".to_owned() },
        );
        bindings.push(
            HotkeyBinding {
                action: "increment10".to_owned(),
                combo: "Shift+Alt+Equal".to_owned(),
            },
        );
        bindings.push(
            HotkeyBinding {
                action: "decrement10".to_owned(),
                combo: "Shift+Alt+Minus".to_owned(),
            },
        );
        let r = HotkeyMap { bindings };
        assert(r@ =~= default_bindings());
        r
    }

    /// The four bindings that a preset's hotkeys stand for.
    pub fn from_config(cfg: &HotkeyConfig) -> (r: HotkeyMap)
        ensures
            r@ == bindings_of(cfg@),
    {
        let mut bindings: Vec<HotkeyBinding> = Vec::new();
        bindings.push(
            HotkeyBinding { action: "increment".to_owned(), combo: cfg.increase.clone() },
        );
        bindings.push(
            HotkeyBinding { action: "decrement".to_owned(), combo: cfg.decrease.clone() },
        );
        bindings.push(
            HotkeyBinding {
                action: "increment10".to_owned(),
                combo: "Shift+".to_owned().concat(cfg.increase.as_str()),
            },
        );
        bindings.push(
            HotkeyBinding {
                action: "decrement10".to_owned(),
                combo: "Shift+".to_owned().concat(cfg.decrease.as_str()),
            },
        );
        let r = HotkeyMap { bindings };
        assert(r@ =~= bindings_of(cfg@));
        r
    }

    /// The bindings in force: those read from the hotkey file where it
    /// held any, else those of the active preset where there is one, else
    /// the defaults.
    pub fn resolve(from_file: Option<HotkeyMap>, active: Option<&HotkeyConfig>) -> (r: HotkeyMap)
        ensures
            r@ == resolved(
                match from_file {
                    Some(m) => Some(m@),
                    None => None,
                },
                match active {
                    Some(c) => Some(c@),
                    None => None,
                },
            ),
    {
        match from_file {
            Some(m) => {
                if !m.is_empty() {
                    return m;
                }
            },
            None => {},
        }
        match active {
            Some(cfg) => HotkeyMap::from_config(cfg),
            None => HotkeyMap::defaults(),
        }
    }
}

} // verus!
