//! Named snapshots of the counter, kept in insertion order.
//!
//! The collection holds at most ten presets, each under a name of its own,
//! and always one called `Default`. Every operation is total: it accepts any
//! collection, and it hands back a well-formed one whenever it was given a
//! well-formed one. [`PresetStore::repair`] makes any collection well-formed.

use crate::hotkey::{HotkeyConfig, HotkeyConfigView};
use crate::state::{WinState, WinStateView};
use crate::text::text_eq;
use vstd::prelude::*;

verus! {

/// The most presets that the collection keeps.
pub const MAX_PRESETS: usize = 10;

/// The name of the preset that is always there.
pub open spec fn default_name() -> Seq<char> {
    "Default"@
}

/// A named snapshot of the counter and of the hotkeys that go with it.
#[derive(Debug)]
pub struct PresetData {
    pub name: String,
    pub win: i32,
    pub goal: i32,
    pub show_goal: bool,
    pub show_crown: bool,
    pub hotkeys: HotkeyConfig,
}

/// What a [`PresetData`] is, as mathematics.
pub struct PresetView {
    pub name: Seq<char>,
    pub win: int,
    pub goal: int,
    pub show_goal: bool,
    pub show_crown: bool,
    pub hotkeys: HotkeyConfigView,
}

impl PresetView {
    /// The `Default` preset as it is first created.
    pub open spec fn initial() -> PresetView {
        PresetView {
            name: default_name(),
            win: 0,
            goal: 10,
            show_goal: true,
            show_crown: true,
            hotkeys: HotkeyConfigView::initial(),
        }
    }

    /// This preset with the four counter fields taken from `s`.
    pub open spec fn with_counter(self, s: WinStateView) -> PresetView {
        PresetView {
            win: s.win,
            goal: s.goal,
            show_goal: s.show_goal,
            show_crown: s.show_crown,
            ..self
        }
    }

    /// A new preset for the record `s`: named after its active preset, with
    /// its counter fields and the initial hotkeys.
    pub open spec fn snapshot_of(s: WinStateView) -> PresetView {
        PresetView {
            name: s.current_preset,
            win: s.win,
            goal: s.goal,
            show_goal: s.show_goal,
            show_crown: s.show_crown,
            hotkeys: HotkeyConfigView::initial(),
        }
    }

    /// The counter record that loading this preset asks for: its four
    /// counter fields, and itself as the active preset.
    pub open spec fn as_state(self) -> WinStateView {
        WinStateView {
            win: self.win,
            goal: self.goal,
            show_goal: self.show_goal,
            show_crown: self.show_crown,
            current_preset: self.name,
        }
    }
}

impl View for PresetData {
    type V = PresetView;

    open spec fn view(&self) -> PresetView {
        PresetView {
            name: self.name@,
            win: self.win as int,
            goal: self.goal as int,
            show_goal: self.show_goal,
            show_crown: self.show_crown,
            hotkeys: self.hotkeys@,
        }
    }
}

impl Clone for PresetData {
    fn clone(&self) -> (r: Self)
        ensures
            r@ == self@,
    {
        PresetData {
            name: self.name.clone(),
            win: self.win,
            goal: self.goal,
            show_goal: self.show_goal,
            show_crown: self.show_crown,
            hotkeys: self.hotkeys.clone(),
        }
    }
}

impl PartialEq for PresetData {
    fn eq(&self, other: &Self) -> (r: bool) {
        self.name == other.name && self.win == other.win && self.goal == other.goal
            && self.show_goal == other.show_goal && self.show_crown == other.show_crown
            && self.hotkeys == other.hotkeys
    }
}

impl vstd::std_specs::cmp::PartialEqSpecImpl for PresetData {
    open spec fn obeys_eq_spec() -> bool {
        true
    }

    open spec fn eq_spec(&self, other: &Self) -> bool {
        self@ == other@
    }
}

impl PresetData {
    /// The `Default` preset as it is first created.
    pub fn default_preset() -> (r: PresetData)
        ensures
            r@ == PresetView::initial(),
    {
        PresetData {
            name: "Default".to_owned(),
            win: 0,
            goal: 10,
            show_goal: true,
            show_crown: true,
            hotkeys: HotkeyConfig::default(),
        }
    }

    /// A new preset for the record `state`, with the initial hotkeys.
    pub fn from_state(state: &WinState) -> (r: PresetData)
        ensures
            r@ == PresetView::snapshot_of(state@),
    {
        PresetData {
            name: state.current_preset.clone(),
            win: state.win,
            goal: state.goal,
            show_goal: state.show_goal,
            show_crown: state.show_crown,
            hotkeys: HotkeyConfig::default(),
        }
    }
}

/// Some preset of `s` is called `name`.
pub open spec fn has_name(s: Seq<PresetView>, name: Seq<char>) -> bool {
    exists|i: int| 0 <= i < s.len() && (#[trigger] s[i]).name == name
}

/// The index of the first preset of `s` that is called `name`.
pub open spec fn position(s: Seq<PresetView>, name: Seq<char>) -> Option<int>
    decreases s.len(),
{
    if s.len() == 0 {
        None
    } else {
        match position(s.drop_last(), name) {
            Some(i) => Some(i),
            None => if s.last().name == name {
                Some(s.len() - 1)
            } else {
                None
            },
        }
    }
}

/// No two presets of `s` share a name.
pub open spec fn names_unique(s: Seq<PresetView>) -> bool {
    forall|i: int, j: int|
        0 <= i < j < s.len() ==> (#[trigger] s[i]).name != (#[trigger] s[j]).name
}

/// What the collection promises once repaired: between one and ten
/// presets, each under a name of its own, one of them `Default`.
pub open spec fn well_formed(s: Seq<PresetView>) -> bool {
    &&& 1 <= s.len() <= 10
    &&& names_unique(s)
    &&& has_name(s, default_name())
}

/// `s` without the presets called `name`, the others in their order.
pub open spec fn without_name(s: Seq<PresetView>, name: Seq<char>) -> Seq<PresetView>
    decreases s.len(),
{
    if s.len() == 0 {
        s
    } else if s.last().name == name {
        without_name(s.drop_last(), name)
    } else {
        without_name(s.drop_last(), name).push(s.last())
    }
}

/// Which preset leaves when the collection is over capacity: the oldest,
/// unless that is `Default`, in which case the one after it.
pub open spec fn eviction_index(s: Seq<PresetView>) -> int {
    if s.len() >= 2 && s[0].name == default_name() {
        1
    } else {
        0
    }
}

/// `s` cut back by one preset if it holds more than ten.
pub open spec fn evicted(s: Seq<PresetView>) -> Seq<PresetView> {
    if s.len() > 10 {
        s.remove(eviction_index(s))
    } else {
        s
    }
}

/// `s` after saving `p`: any preset of that name is dropped, `p` is added as
/// the newest, and the collection is cut back to capacity.
pub open spec fn saved(s: Seq<PresetView>, p: PresetView) -> Seq<PresetView> {
    evicted(without_name(s, p.name).push(p))
}

/// `s` after deleting `name`: the presets of that name are gone, and a fresh
/// `Default` stands in if nothing else is left.
pub open spec fn deleted(s: Seq<PresetView>, name: Seq<char>) -> Seq<PresetView> {
    let rest = without_name(s, name);
    if rest.len() == 0 {
        seq![PresetView::initial()]
    } else {
        rest
    }
}

/// `s` with the preset at `i` renamed to `name`.
pub open spec fn renamed(s: Seq<PresetView>, i: int, name: Seq<char>) -> Seq<PresetView> {
    s.update(i, PresetView { name: name, ..s[i] })
}

/// `s` after the counter record `state` was mirrored into it: the preset
/// that `state` names takes its counter fields, and is created if missing.
pub open spec fn mirrored(s: Seq<PresetView>, state: WinStateView) -> Seq<PresetView> {
    match position(s, state.current_preset) {
        Some(i) => s.update(i, s[i].with_counter(state)),
        None => saved(s, PresetView::snapshot_of(state)),
    }
}

/// The well-formed collection made from stored entries: starting from a
/// fresh `Default`, each entry is saved in turn.
pub open spec fn repaired(entries: Seq<PresetView>) -> Seq<PresetView>
    decreases entries.len(),
{
    if entries.len() == 0 {
        seq![PresetView::initial()]
    } else {
        saved(repaired(entries.drop_last()), entries.last())
    }
}

/// What [`position`] finds: the first index under that name, or that there
/// is none.
pub proof fn lemma_position(s: Seq<PresetView>, name: Seq<char>)
    ensures
        match position(s, name) {
            Some(i) => {
                &&& 0 <= i < s.len()
                &&& s[i].name == name
                &&& forall|j: int| 0 <= j < i ==> (#[trigger] s[j]).name != name
            },
            None => forall|j: int| 0 <= j < s.len() ==> (#[trigger] s[j]).name != name,
        },
        position(s, name) is Some <==> has_name(s, name),
    decreases s.len(),
{
    if s.len() > 0 {
        let init = s.drop_last();
        lemma_position(init, name);
        assert forall|j: int| 0 <= j < init.len() implies #[trigger] s[j] == init[j] by {}
        match position(s, name) {
            Some(i) => {
                assert(s[i].name == name);
                assert(has_name(s, name));
            },
            None => {
                assert(position(init, name) is None);
                assert forall|j: int| 0 <= j < s.len() implies (#[trigger] s[j]).name != name by {
                    if j < init.len() {
                        assert(init[j].name != name);
                    }
                }
            },
        }
    }
}

/// A preset under `name` at index `i` puts that name in the collection.
proof fn lemma_has_name_at(s: Seq<PresetView>, i: int)
    requires
        0 <= i < s.len(),
    ensures
        has_name(s, s[i].name),
{
}

/// Where a name that the collection holds can be found.
proof fn lemma_has_name_witness(s: Seq<PresetView>, name: Seq<char>) -> (i: int)
    requires
        has_name(s, name),
    ensures
        0 <= i < s.len(),
        s[i].name == name,
{
    choose|i: int| 0 <= i < s.len() && (#[trigger] s[i]).name == name
}

/// What [`without_name`] keeps: exactly the presets under other names, in
/// their order, so that names that were unique stay unique.
pub proof fn lemma_without_name(s: Seq<PresetView>, name: Seq<char>)
    ensures
        without_name(s, name).len() <= s.len(),
        !has_name(without_name(s, name), name),
        forall|other: Seq<char>|
            #![trigger has_name(without_name(s, name), other)]
            #![trigger has_name(s, other)]
            other != name ==> (has_name(without_name(s, name), other) <==> has_name(s, other)),
        names_unique(s) ==> names_unique(without_name(s, name)),
        !has_name(s, name) ==> without_name(s, name) == s,
    decreases s.len(),
{
    let w = without_name(s, name);
    if s.len() > 0 {
        let init = s.drop_last();
        let wi = without_name(init, name);
        let last = s.last();
        lemma_without_name(init, name);
        assert forall|j: int| 0 <= j < init.len() implies #[trigger] s[j] == init[j] by {}
        assert forall|other: Seq<char>| other != name implies (has_name(w, other) <==> has_name(
            s,
            other,
        )) by {
            if has_name(w, other) {
                let i = lemma_has_name_witness(w, other);
                if i < wi.len() {
                    assert(w[i] == wi[i]);
                    lemma_has_name_at(wi, i);
                    assert(has_name(init, other));
                    let k = lemma_has_name_witness(init, other);
                    lemma_has_name_at(s, k);
                } else {
                    lemma_has_name_at(s, s.len() - 1);
                }
            }
            if has_name(s, other) {
                let k = lemma_has_name_witness(s, other);
                if k < init.len() {
                    lemma_has_name_at(init, k);
                    assert(has_name(wi, other));
                    let i = lemma_has_name_witness(wi, other);
                    assert(w[i] == wi[i]);
                    lemma_has_name_at(w, i);
                } else {
                    assert(last.name == other);
                    assert(w == wi.push(last));
                    lemma_has_name_at(w, w.len() - 1);
                }
            }
        }
        if has_name(w, name) {
            let i = lemma_has_name_witness(w, name);
            if i < wi.len() {
                assert(w[i] == wi[i]);
                lemma_has_name_at(wi, i);
            }
        }
        if names_unique(s) {
            assert(names_unique(init)) by {
                assert forall|i: int, j: int| 0 <= i < j < init.len() implies (
                #[trigger] init[i]).name != (#[trigger] init[j]).name by {
                    assert(s[i].name != s[j].name);
                }
            }
            assert forall|i: int, j: int| 0 <= i < j < w.len() implies (#[trigger] w[i]).name != (
            #[trigger] w[j]).name by {
                if j < wi.len() {
                    assert(wi[i].name != wi[j].name);
                } else if w[i].name == last.name {
                    assert(w[i] == wi[i]);
                    lemma_has_name_at(wi, i);
                    assert(has_name(init, last.name));
                    let k = lemma_has_name_witness(init, last.name);
                    assert(s[k].name != s[s.len() - 1].name);
                }
            }
        }
        if !has_name(s, name) {
            lemma_has_name_at(s, s.len() - 1);
            if has_name(init, name) {
                let k = lemma_has_name_witness(init, name);
                lemma_has_name_at(s, k);
            }
            assert(w =~= s);
        }
    }
}

/// Saving keeps a well-formed collection well-formed, and the saved preset
/// is in it afterwards, as the newest.
pub proof fn lemma_saved(s: Seq<PresetView>, p: PresetView)
    requires
        well_formed(s),
    ensures
        well_formed(saved(s, p)),
        saved(s, p).last() == p,
{
    let w = without_name(s, p.name);
    let pushed = w.push(p);
    lemma_without_name(s, p.name);
    assert(names_unique(pushed)) by {
        assert forall|i: int, j: int| 0 <= i < j < pushed.len() implies (
        #[trigger] pushed[i]).name != (#[trigger] pushed[j]).name by {
            if j == w.len() {
                if pushed[i].name == p.name {
                    lemma_has_name_at(w, i);
                }
            } else {
                assert(w[i].name != w[j].name);
            }
        }
    }
    assert(has_name(pushed, default_name())) by {
        if p.name == default_name() {
            lemma_has_name_at(pushed, pushed.len() - 1);
        } else {
            assert(has_name(w, default_name()));
            let i = lemma_has_name_witness(w, default_name());
            lemma_has_name_at(pushed, i);
        }
    }
    if pushed.len() > 10 {
        let e = eviction_index(pushed);
        let r = pushed.remove(e);
        assert(pushed.len() == 11);
        assert(pushed[e].name != default_name()) by {
            if e == 1 {
                assert(pushed[0].name != pushed[1].name);
            }
        }
        let d = lemma_has_name_witness(pushed, default_name());
        if d < e {
            lemma_has_name_at(r, d);
        } else {
            lemma_has_name_at(r, d - 1);
        }
        assert forall|i: int, j: int| 0 <= i < j < r.len() implies (#[trigger] r[i]).name != (
        #[trigger] r[j]).name by {
            let ii = if i < e { i } else { i + 1 };
            let jj = if j < e { j } else { j + 1 };
            assert(pushed[ii].name != pushed[jj].name);
        }
    }
}

/// A preset that was saved is found under its name, as the newest and as
/// it was saved, whatever the collection held before.
pub proof fn lemma_saved_is_found(s: Seq<PresetView>, p: PresetView)
    ensures
        saved(s, p).len() >= 1,
        position(saved(s, p), p.name) == Some(saved(s, p).len() - 1),
        saved(s, p).last() == p,
{
    let w = without_name(s, p.name);
    let pushed = w.push(p);
    let r = saved(s, p);
    lemma_without_name(s, p.name);
    assert forall|j: int| 0 <= j < w.len() implies (#[trigger] w[j]).name != p.name by {
        lemma_has_name_at(w, j);
    }
    lemma_position(r, p.name);
    if pushed.len() > 10 {
        let e = eviction_index(pushed);
        assert(r == pushed.remove(e));
        assert(r[r.len() - 1] == p);
        match position(r, p.name) {
            Some(k) => {
                if k < r.len() - 1 {
                    let kk = if k < e {
                        k
                    } else {
                        k + 1
                    };
                    assert(r[k] == pushed[kk]);
                    assert(pushed[kk] == w[kk]);
                }
            },
            None => {},
        }
    } else {
        assert(r == pushed);
        assert(r[r.len() - 1] == p);
        match position(r, p.name) {
            Some(k) => {
                if k < r.len() - 1 {
                    assert(r[k] == w[k]);
                }
            },
            None => {},
        }
    }
}

/// A collection made by [`repaired`] is well-formed, whatever the entries.
pub proof fn lemma_repaired_is_well_formed(entries: Seq<PresetView>)
    ensures
        well_formed(repaired(entries)),
    decreases entries.len(),
{
    if entries.len() == 0 {
        lemma_has_name_at(seq![PresetView::initial()], 0);
    } else {
        lemma_repaired_is_well_formed(entries.drop_last());
        lemma_saved(repaired(entries.drop_last()), entries.last());
    }
}

/// Every preset that [`without_name`] keeps is one of the collection, under
/// another name than the one that was taken out.
pub proof fn lemma_without_name_keeps(s: Seq<PresetView>, name: Seq<char>, k: int) -> (i: int)
    requires
        0 <= k < without_name(s, name).len(),
    ensures
        0 <= i < s.len(),
        s[i] == without_name(s, name)[k],
        s[i].name != name,
    decreases s.len(),
{
    let init = s.drop_last();
    let wi = without_name(init, name);
    if k < wi.len() {
        let i = lemma_without_name_keeps(init, name, k);
        assert(s[i] == init[i]);
        i
    } else {
        s.len() - 1
    }
}

/// Taking a name out of two collections put together is taking it out of
/// each.
pub proof fn lemma_without_name_of_concat(a: Seq<PresetView>, b: Seq<PresetView>, name: Seq<char>)
    ensures
        without_name(a + b, name) == without_name(a, name) + without_name(b, name),
    decreases b.len(),
{
    if b.len() == 0 {
        assert(a + b =~= a);
        assert(without_name(a, name) + without_name(b, name) =~= without_name(a, name));
    } else {
        lemma_without_name_of_concat(a, b.drop_last(), name);
        assert((a + b).drop_last() =~= a + b.drop_last());
        assert((a + b).last() == b.last());
        if b.last().name != name {
            assert(without_name(a, name) + without_name(b.drop_last(), name).push(b.last())
                =~= (without_name(a, name) + without_name(b.drop_last(), name)).push(b.last()));
        }
    }
}

/// What a request to delete `name` leaves of the collection: nothing
/// changes where the request is refused.
pub open spec fn after_delete(s: Seq<PresetView>, name: Seq<char>) -> Seq<PresetView> {
    if name == default_name() || !has_name(s, name) {
        s
    } else {
        deleted(s, name)
    }
}

/// What a run of requests to delete leaves of the collection.
pub open spec fn after_deletes(s: Seq<PresetView>, names: Seq<Seq<char>>) -> Seq<PresetView>
    decreases names.len(),
{
    if names.len() == 0 {
        s
    } else {
        after_delete(after_deletes(s, names.drop_last()), names.last())
    }
}

/// Whatever is deleted, `Default` stays, a well-formed collection stays
/// well-formed, and what is left are presets of the collection whose names
/// were not among those deleted.
pub proof fn lemma_deletes_leave_default(s: Seq<PresetView>, names: Seq<Seq<char>>)
    requires
        has_name(s, default_name()),
    ensures
        has_name(after_deletes(s, names), default_name()),
        well_formed(s) ==> well_formed(after_deletes(s, names)),
        forall|k: int|
            0 <= k < after_deletes(s, names).len() ==> exists|i: int|
                0 <= i < s.len() && s[i] == #[trigger] after_deletes(s, names)[k],
        forall|k: int, j: int|
            0 <= k < after_deletes(s, names).len() && 0 <= j < names.len() && names[j]
                != default_name() ==> (#[trigger] after_deletes(s, names)[k]).name
                != #[trigger] names[j],
    decreases names.len(),
{
    let r = after_deletes(s, names);
    if names.len() == 0 {
        assert forall|k: int| 0 <= k < r.len() implies exists|i: int|
            0 <= i < s.len() && s[i] == #[trigger] r[k] by {
            assert(s[k] == r[k]);
        }
    } else {
        let init = names.drop_last();
        let name = names.last();
        let mid = after_deletes(s, init);
        lemma_deletes_leave_default(s, init);
        lemma_without_name(mid, name);
        if name != default_name() && has_name(mid, name) {
            let w = without_name(mid, name);
            assert(has_name(w, default_name()));
            let d = lemma_has_name_witness(w, default_name());
            assert(r == w);
            assert forall|k: int| 0 <= k < r.len() implies exists|i: int|
                0 <= i < s.len() && s[i] == #[trigger] r[k] by {
                let m = lemma_without_name_keeps(mid, name, k);
                let i = choose|i: int| 0 <= i < s.len() && s[i] == mid[m];
                assert(s[i] == r[k]);
            }
            assert forall|k: int, j: int|
                0 <= k < r.len() && 0 <= j < names.len() && names[j]
                    != default_name() implies (#[trigger] r[k]).name != #[trigger] names[j] by {
                let m = lemma_without_name_keeps(mid, name, k);
                if j < init.len() {
                    assert(init[j] == names[j]);
                    assert(mid[m].name != init[j]);
                }
            }
        } else {
            assert(r == mid);
            assert forall|k: int, j: int|
                0 <= k < r.len() && 0 <= j < names.len() && names[j]
                    != default_name() implies (#[trigger] r[k]).name != #[trigger] names[j] by {
                if j < init.len() {
                    assert(init[j] == names[j]);
                    assert(mid[k].name != init[j]);
                } else {
                    lemma_has_name_at(mid, k);
                }
            }
        }
    }
}

/// Deleting every preset but `Default` leaves `Default`, and nothing else.
pub proof fn lemma_deleting_all_others_leaves_default(s: Seq<PresetView>, names: Seq<Seq<char>>)
    requires
        well_formed(s),
        forall|i: int|
            0 <= i < s.len() && (#[trigger] s[i]).name != default_name() ==> names.contains(
                s[i].name,
            ),
    ensures
        after_deletes(s, names).len() == 1,
        after_deletes(s, names)[0].name == default_name(),
        position(s, default_name()) is Some,
        after_deletes(s, names)[0] == s[position(s, default_name())->0],
{
    let r = after_deletes(s, names);
    lemma_deletes_leave_default(s, names);
    lemma_position(s, default_name());
    assert forall|k: int| 0 <= k < r.len() implies (#[trigger] r[k]).name == default_name() by {
        let i = choose|i: int| 0 <= i < s.len() && s[i] == r[k];
        if s[i].name != default_name() {
            assert(names.contains(s[i].name));
            let j = choose|j: int| 0 <= j < names.len() && names[j] == s[i].name;
            assert(r[k].name != names[j]);
        }
    }
    if r.len() > 1 {
        assert(r[0].name != r[1].name);
    }
    let i = choose|i: int| 0 <= i < s.len() && s[i] == r[0];
    let p = position(s, default_name())->0;
    if i < p {
        assert(s[i].name != default_name());
    } else if p < i {
        assert(s[p].name != s[i].name);
    }
}

/// Repairing leaves a collection as it is where its names are unique and
/// it fits the capacity; where it lacks `Default`, a fresh one is put in
/// front.
pub proof fn lemma_repaired_keeps_good_entries(s: Seq<PresetView>)
    requires
        names_unique(s),
        s.len() <= 10,
        !has_name(s, default_name()) ==> s.len() <= 9,
    ensures
        repaired(s) == (if has_name(s, default_name()) {
            s
        } else {
            seq![PresetView::initial()] + s
        }),
    decreases s.len(),
{
    let fresh = seq![PresetView::initial()];
    if s.len() == 0 {
        assert(fresh + s =~= fresh);
    } else {
        let init = s.drop_last();
        let last = s.last();
        assert forall|j: int| 0 <= j < init.len() implies #[trigger] s[j] == init[j] by {}
        assert(names_unique(init)) by {
            assert forall|i: int, j: int| 0 <= i < j < init.len() implies (
            #[trigger] init[i]).name != (#[trigger] init[j]).name by {
                assert(s[i].name != s[j].name);
            }
        }
        assert(!has_name(init, last.name)) by {
            if has_name(init, last.name) {
                let k = lemma_has_name_witness(init, last.name);
                assert(s[k].name != s[s.len() - 1].name);
            }
        }
        if has_name(init, default_name()) {
            let d = lemma_has_name_witness(init, default_name());
            lemma_has_name_at(s, d);
            lemma_repaired_keeps_good_entries(init);
            lemma_without_name(init, last.name);
            assert(init.push(last) =~= s);
        } else {
            lemma_repaired_keeps_good_entries(init);
            let before = fresh + init;
            lemma_without_name_of_concat(fresh, init, last.name);
            lemma_without_name(init, last.name);
            assert(fresh.drop_last() =~= Seq::<PresetView>::empty());
            assert(without_name(fresh.drop_last(), last.name) =~= Seq::<PresetView>::empty());
            assert(fresh.last().name == default_name());
            if last.name == default_name() {
                lemma_has_name_at(s, s.len() - 1);
                assert(without_name(fresh, last.name) =~= Seq::<PresetView>::empty());
                assert(without_name(before, last.name) =~= init);
                assert(init.push(last) =~= s);
            } else {
                assert(!has_name(s, default_name())) by {
                    if has_name(s, default_name()) {
                        let k = lemma_has_name_witness(s, default_name());
                        if k < init.len() {
                            lemma_has_name_at(init, k);
                        }
                    }
                }
                assert(without_name(fresh, last.name) =~= fresh);
                assert(without_name(before, last.name) =~= before);
                assert(before.push(last) =~= fresh + s);
            }
        }
    }
}

/// Repairing a well-formed collection changes nothing.
pub proof fn lemma_repair_is_identity_on_well_formed(s: Seq<PresetView>)
    requires
        well_formed(s),
    ensures
        repaired(s) == s,
{
    lemma_repaired_keeps_good_entries(s);
}

/// Why a preset operation was refused.
#[derive(Debug, Clone, Copy, PartialEq, Eq, Structural)]
pub enum PresetError {
    /// No preset has the name that was asked for.
    NotFound,
    /// The operation would take `Default` away.
    DefaultProtected,
    /// Another preset already has the new name.
    NameTaken,
}

impl PresetError {
    /// What the control surface is told when an operation on the preset
    /// `name` was refused for this reason.
    pub open spec fn spec_message(self, name: Seq<char>) -> Seq<char> {
        match self {
            PresetError::NotFound => "Preset '"@ + name + "' not found"@,
            PresetError::DefaultProtected => "Cannot delete Default preset"@,
            PresetError::NameTaken => "Preset '"@ + name + "' already exists"@,
        }
    }

    /// What the control surface is told when an operation on the preset
    /// `name` was refused for this reason.
    pub fn message(self, name: &str) -> (r: String)
        ensures
            r@ == self.spec_message(name@),
    {
        match self {
            PresetError::NotFound => "Preset '".to_owned().concat(name).concat("' not found"),
            PresetError::DefaultProtected => "Cannot delete Default preset".to_owned(),
            PresetError::NameTaken => "Preset '".to_owned().concat(name).concat(
                "' already exists",
            ),
        }
    }
}

/// The views of a run of presets, in order.
pub open spec fn views(v: Seq<PresetData>) -> Seq<PresetView> {
    Seq::new(v.len(), |i: int| v[i]@)
}

/// The ordered collection of presets, oldest first.
#[derive(Debug)]
pub struct PresetStore {
    pub presets: Vec<PresetData>,
}

impl View for PresetStore {
    type V = Seq<PresetView>;

    open spec fn view(&self) -> Seq<PresetView> {
        views(self.presets@)
    }
}

impl PresetStore {
    /// The collection is well-formed: one to ten presets, names unique,
    /// `Default` among them.
    pub open spec fn wf(&self) -> bool {
        well_formed(self@)
    }

    /// A collection that holds the fresh `Default` and nothing else.
    pub fn new() -> (r: PresetStore)
        ensures
            r@ == seq![PresetView::initial()],
            r.wf(),
    {
        let mut presets: Vec<PresetData> = Vec::new();
        presets.push(PresetData::default_preset());
        let r = PresetStore { presets };
        proof {
            assert(r@ =~= seq![PresetView::initial()]);
            lemma_has_name_at(r@, 0);
        }
        r
    }

    /// How many presets the collection holds.
    pub fn len(&self) -> (n: usize)
        ensures
            n == self@.len(),
    {
        self.presets.len()
    }

    /// The index of the first preset called `name`, if there is one.
    pub fn find(&self, name: &str) -> (r: Option<usize>)
        ensures
            match r {
                Some(i) => position(self@, name@) == Some(i as int),
                None => position(self@, name@) is None,
            },
    {
        let mut i: usize = 0;
        while i < self.presets.len()
            invariant
                i <= self.presets@.len(),
                forall|j: int| 0 <= j < i ==> (#[trigger] self@[j]).name != name@,
            decreases self.presets@.len() - i,
        {
            if text_eq(self.presets[i].name.as_str(), name) {
                proof {
                    assert(self@[i as int].name == name@);
                    lemma_position(self@, name@);
                }
                return Some(i);
            }
            i += 1;
        }
        proof {
            lemma_position(self@, name@);
        }
        None
    }

    /// Whether some preset is called `name`.
    pub fn contains(&self, name: &str) -> (r: bool)
        ensures
            r == has_name(self@, name@),
    {
        proof {
            lemma_position(self@, name@);
        }
        self.find(name).is_some()
    }

    /// A copy of the first preset called `name`.
    pub fn get(&self, name: &str) -> (r: Option<PresetData>)
        ensures
            match position(self@, name@) {
                Some(i) => r is Some && r->0@ == self@[i],
                None => r is None,
            },
    {
        proof {
            lemma_position(self@, name@);
        }
        match self.find(name) {
            Some(i) => Some(self.presets[i].clone()),
            None => None,
        }
    }

    /// A copy of every preset, oldest first.
    pub fn list(&self) -> (r: Vec<PresetData>)
        ensures
            views(r@) == self@,
    {
        let mut out: Vec<PresetData> = Vec::new();
        let mut i: usize = 0;
        while i < self.presets.len()
            invariant
                i <= self.presets@.len(),
                out@.len() == i,
                forall|j: int| 0 <= j < i ==> (#[trigger] out@[j])@ == self.presets@[j]@,
            decreases self.presets@.len() - i,
        {
            out.push(self.presets[i].clone());
            i += 1;
        }
        assert(views(out@) =~= self@);
        out
    }

    /// Drops every preset called `name`; the others keep their order.
    fn remove_named(&mut self, name: &str)
        ensures
            final(self)@ == without_name(old(self)@, name@),
    {
        let ghost before = self@;
        let ghost mut done: int = 0;
        let mut i: usize = 0;
        assert(before.take(0) =~= Seq::<PresetView>::empty());
        assert(self@ =~= without_name(before.take(0), name@) + before.skip(0));
        while i < self.presets.len()
            invariant
                0 <= done <= before.len(),
                i == without_name(before.take(done), name@).len(),
                self@ =~= without_name(before.take(done), name@) + before.skip(done),
            decreases before.len() - done,
        {
            let ghost kept = without_name(before.take(done), name@);
            assert(self@[i as int] == before.skip(done)[0]);
            assert(done < before.len());
            assert(before.take(done + 1).drop_last() =~= before.take(done));
            assert(before.take(done + 1).last() == before[done]);
            let ghost current = self@;
            if text_eq(self.presets[i].name.as_str(), name) {
                self.presets.remove(i);
                proof {
                    assert(self@ =~= current.remove(i as int));
                    assert(current.remove(i as int) =~= kept + before.skip(done + 1));
                    done = done + 1;
                }
            } else {
                proof {
                    assert(self@ =~= kept.push(before[done]) + before.skip(done + 1));
                    done = done + 1;
                }
                i += 1;
            }
        }
        proof {
            assert(before.skip(done).len() == 0);
            assert(done == before.len());
            assert(before.take(done) =~= before);
            assert(self@ =~= without_name(before, name@));
        }
    }

    /// Cuts the collection back by one preset if it holds more than ten:
    /// the oldest leaves, unless that is `Default`, which is passed over.
    fn evict(&mut self)
        ensures
            final(self)@ == evicted(old(self)@),
    {
        if self.presets.len() > MAX_PRESETS {
            let first_is_default = text_eq(self.presets[0].name.as_str(), "Default");
            assert(self@[0].name == self.presets@[0].name@);
            let ghost before = self@;
            if first_is_default {
                self.presets.remove(1);
                assert(self@ =~= before.remove(1));
            } else {
                self.presets.remove(0);
                assert(self@ =~= before.remove(0));
            }
        }
    }

    /// Saves `preset`: a preset of the same name is replaced, the saved one
    /// becomes the newest, and the oldest leaves if that makes eleven.
    pub fn save(&mut self, preset: PresetData)
        ensures
            final(self)@ == saved(old(self)@, preset@),
            old(self).wf() ==> final(self).wf(),
            position(final(self)@, preset@.name) == Some(final(self)@.len() - 1),
            final(self)@.last() == preset@,
    {
        proof {
            if self.wf() {
                lemma_saved(self@, preset@);
            }
            lemma_saved_is_found(self@, preset@);
        }
        self.remove_named(preset.name.as_str());
        let ghost trimmed = self@;
        self.presets.push(preset);
        assert(self@ =~= trimmed.push(preset@));
        self.evict();
    }

    /// Deletes the presets called `name`. `Default` cannot be deleted, and a
    /// name that no preset has is an error; in both cases nothing changes.
    pub fn delete(&mut self, name: &str) -> (r: Result<(), PresetError>)
        ensures
            r == (if name@ == default_name() {
                Err::<(), PresetError>(PresetError::DefaultProtected)
            } else if !has_name(old(self)@, name@) {
                Err(PresetError::NotFound)
            } else {
                Ok(())
            }),
            r is Ok ==> final(self)@ == deleted(old(self)@, name@),
            r is Err ==> *final(self) == *old(self),
            old(self).wf() ==> final(self).wf(),
            has_name(old(self)@, default_name()) ==> has_name(final(self)@, default_name()),
    {
        if text_eq(name, "Default") {
            return Err(PresetError::DefaultProtected);
        }
        if !self.contains(name) {
            return Err(PresetError::NotFound);
        }
        proof {
            lemma_without_name(self@, name@);
        }
        self.remove_named(name);
        if self.presets.len() == 0 {
            self.presets.push(PresetData::default_preset());
            proof {
                assert(self@ =~= seq![PresetView::initial()]);
                lemma_has_name_at(self@, 0);
            }
        }
        Ok(())
    }

    /// Gives the first preset called `old_name` the name `new_name`.
    /// `Default` keeps its name, and no two presets may end up under one.
    pub fn rename(&mut self, old_name: &str, new_name: String) -> (r: Result<(), PresetError>)
        ensures
            r == (if old_name@ == default_name() {
                Err::<(), PresetError>(PresetError::DefaultProtected)
            } else if !has_name(old(self)@, old_name@) {
                Err(PresetError::NotFound)
            } else if new_name@ != old_name@ && has_name(old(self)@, new_name@) {
                Err(PresetError::NameTaken)
            } else {
                Ok(())
            }),
            r is Ok ==> position(old(self)@, old_name@) is Some && final(self)@ == renamed(
                old(self)@,
                position(old(self)@, old_name@)->0,
                new_name@,
            ),
            r is Err ==> *final(self) == *old(self),
            old(self).wf() ==> final(self).wf(),
    {
        proof {
            lemma_position(self@, old_name@);
        }
        if text_eq(old_name, "Default") {
            return Err(PresetError::DefaultProtected);
        }
        let found = self.find(old_name);
        match found {
            None => Err(PresetError::NotFound),
            Some(i) => {
                if !text_eq(new_name.as_str(), old_name) && self.contains(new_name.as_str()) {
                    return Err(PresetError::NameTaken);
                }
                let ghost before = self@;
                let ghost fresh = new_name@;
                self.presets[i].name = new_name;
                proof {
                    assert(self@ =~= renamed(before, i as int, fresh));
                    if well_formed(before) {
                        lemma_renamed(before, i as int, fresh);
                    }
                }
                Ok(())
            },
        }
    }

    /// Writes the counter fields of `state` into the preset that it names;
    /// when no preset has that name, one is created and saved.
    pub fn mirror(&mut self, state: &WinState)
        ensures
            final(self)@ == mirrored(old(self)@, state@),
            old(self).wf() ==> final(self).wf(),
            has_name(final(self)@, state@.current_preset),
    {
        proof {
            lemma_position(self@, state.current_preset@);
        }
        match self.find(state.current_preset.as_str()) {
            Some(i) => {
                let ghost before = self@;
                self.presets[i].win = state.win;
                self.presets[i].goal = state.goal;
                self.presets[i].show_goal = state.show_goal;
                self.presets[i].show_crown = state.show_crown;
                proof {
                    assert(self@ =~= before.update(i as int, before[i as int].with_counter(state@)));
                    lemma_has_name_at(self@, i as int);
                    if well_formed(before) {
                        lemma_same_names(before, self@);
                    }
                }
            },
            None => {
                proof {
                    lemma_without_name(self@, state.current_preset@);
                    let p = PresetView::snapshot_of(state@);
                    let pushed = self@.push(p);
                    lemma_has_name_at(pushed, pushed.len() - 1);
                    if pushed.len() > 10 {
                        let e = eviction_index(pushed);
                        assert(pushed.len() >= 12 || e < pushed.len() - 1);
                        lemma_has_name_at(pushed.remove(e), pushed.len() - 2);
                    }
                }
                self.save(PresetData::from_state(state));
            },
        }
    }

    /// Builds a well-formed collection from stored entries: starting from a
    /// fresh `Default`, each entry is saved in turn.
    pub fn repair(entries: Vec<PresetData>) -> (r: PresetStore)
        ensures
            r@ == repaired(views(entries@)),
            r.wf(),
    {
        let mut store = PresetStore::new();
        let ghost all = views(entries@);
        assert(all.take(0) =~= Seq::<PresetView>::empty());
        for p in it: entries
            invariant
                it.seq() == entries@,
                all == views(entries@),
                store@ == repaired(all.take(it.index() as int)),
                store.wf(),
        {
            proof {
                let k = it.index() as int;
                assert(all.take(k + 1).drop_last() =~= all.take(k));
                assert(all.take(k + 1).last() == p@);
            }
            store.save(p);
        }
        assert(all.take(all.len() as int) =~= all);
        store
    }

    /// Makes sure that the record names a preset that exists: a name that
    /// no preset has is replaced by `Default`. Says whether it changed the
    /// record.
    pub fn resolve_current_preset(&self, state: &mut WinState) -> (changed: bool)
        ensures
            changed == !has_name(self@, old(state)@.current_preset),
            final(state)@ == (if changed {
                WinStateView { current_preset: default_name(), ..old(state)@ }
            } else {
                old(state)@
            }),
            self.wf() ==> has_name(self@, final(state)@.current_preset),
    {
        if self.contains(state.current_preset.as_str()) {
            false
        } else {
            state.current_preset = "Default".to_owned();
            true
        }
    }

    /// Loads the preset called `name` into the counter record: its counter
    /// fields, clamped, and its name as the active preset. Hands back a copy
    /// of the preset. With no such preset the record is left as it is.
    pub fn load(&self, name: &str, state: &mut WinState) -> (r: Result<PresetData, PresetError>)
        ensures
            match position(self@, name@) {
                Some(i) => {
                    &&& r is Ok
                    &&& r->Ok_0@ == self@[i]
                    &&& final(state)@ == self@[i].as_state().normalized()
                },
                None => r == Err::<PresetData, PresetError>(PresetError::NotFound) && *final(state)
                    == *old(state),
            },
    {
        proof {
            lemma_position(self@, name@);
        }
        match self.find(name) {
            None => Err(PresetError::NotFound),
            Some(i) => {
                let preset = self.presets[i].clone();
                let next = WinState {
                    win: preset.win,
                    goal: preset.goal,
                    show_goal: preset.show_goal,
                    show_crown: preset.show_crown,
                    current_preset: preset.name.clone(),
                };
                state.replace(next);
                Ok(preset)
            },
        }
    }
}

/// Renaming a preset other than `Default` to a name that no other preset
/// has keeps a well-formed collection well-formed.
proof fn lemma_renamed(s: Seq<PresetView>, i: int, name: Seq<char>)
    requires
        well_formed(s),
        0 <= i < s.len(),
        s[i].name != default_name(),
        name == s[i].name || !has_name(s, name),
    ensures
        well_formed(renamed(s, i, name)),
{
    let r = renamed(s, i, name);
    let d = lemma_has_name_witness(s, default_name());
    lemma_has_name_at(r, d);
    assert forall|a: int, b: int| 0 <= a < b < r.len() implies (#[trigger] r[a]).name != (
    #[trigger] r[b]).name by {
        assert(s[a].name != s[b].name);
        if a == i {
            lemma_has_name_at(s, b);
        } else if b == i {
            lemma_has_name_at(s, a);
        }
    }
}

/// A collection with the same names at the same places as a well-formed
/// one is well-formed.
proof fn lemma_same_names(s: Seq<PresetView>, t: Seq<PresetView>)
    requires
        well_formed(s),
        s.len() == t.len(),
        forall|i: int| 0 <= i < s.len() ==> (#[trigger] s[i]).name == t[i].name,
    ensures
        well_formed(t),
{
    let d = lemma_has_name_witness(s, default_name());
    lemma_has_name_at(t, d);
    assert forall|a: int, b: int| 0 <= a < b < t.len() implies (#[trigger] t[a]).name != (
    #[trigger] t[b]).name by {
        assert(s[a].name != s[b].name);
    }
}

} // verus!
