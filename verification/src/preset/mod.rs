//! Preset compatibility layer: the internal preset model and the conversion
//! of Input Overlay presets into it.

pub mod importer;
pub mod schema;
pub use importer::{ElementType, ImportMode, PresetImporter};
pub use schema::{Position, Preset, PresetElement, TextureMapping};

use crate::error::Error;
use vstd::prelude::*;

verus! {

/// Presets whose name differs from `name`, in order.
pub open spec fn without_name(presets: Seq<Preset>, name: Seq<char>) -> Seq<Preset> {
    presets.filter(name_differs(name))
}

/// The preset's name is not `name`.
pub open spec fn name_differs(name: Seq<char>) -> spec_fn(Preset) -> bool {
    |p: Preset| p.name@ != name
}

/// Drops every stored preset named `name`; the others keep their order.
pub fn remove_presets_named(presets: &mut Vec<Preset>, name: &str)
    ensures
        final(presets)@ == without_name(old(presets)@, name@),
{
    let mut previous: Vec<Preset> = Vec::new();
    std::mem::swap(&mut previous, presets);
    let ghost orig = previous@;
    let ghost target = name@;
    let mut kept: Vec<Preset> = Vec::new();
    for p in it: previous.into_iter()
        invariant
            it.seq() == orig,
            target == name@,
            kept@ == without_name(orig.take(it.index()), target),
            it.index() == orig.len() ==> kept@ == without_name(orig, target),
    {
        let ghost idx = it.index();
        let ghost before = kept@;
        let ghost item = p;
        let keep = !crate::text::same_text(p.name.as_str(), name);
        if keep {
            kept.push(p);
        }
        proof {
            assert(item == orig[idx]);
            reveal_with_fuel(Seq::<_>::filter, 1);
            assert(orig.take(idx + 1).drop_last() =~= orig.take(idx));
            assert(orig.take(idx + 1).last() == item);
            let s1 = orig.take(idx + 1);
            let f = name_differs(target);
            assert(s1.filter(f) == (if f(s1.last()) {
                s1.drop_last().filter(f).push(s1.last())
            } else {
                s1.drop_last().filter(f)
            }));
            assert(f(item) == keep);
            assert(kept@ == without_name(orig.take(idx + 1), target));
            if idx + 1 == orig.len() {
                assert(orig.take(idx + 1) =~= orig);
            }
        }
    }
    *presets = kept;
}

/// Stores an imported preset: every stored preset with the same name is
/// dropped, the others keep their order, and the new preset goes last.
pub fn upsert_preset(presets: &mut Vec<Preset>, preset: Preset)
    ensures
        final(presets)@ == without_name(old(presets)@, preset.name@).push(preset),
{
    remove_presets_named(presets, preset.name.as_str());
    presets.push(preset);
}

/// After storing a preset, exactly one stored preset carries its name (the
/// new one, found by name), and every preset with another name is kept.
pub proof fn lemma_upsert_keeps_one_preset_per_name(presets: Seq<Preset>, preset: Preset)
    ensures
        ({
            let stored = without_name(presets, preset.name@).push(preset);
            &&& first_named(stored, preset.name@, 0) == Some(stored.len() - 1)
            &&& forall|i: int| 0 <= i < stored.len() - 1 ==> (#[trigger] stored[i]).name@ != preset.name@
            &&& forall|q: Preset| #[trigger] presets.contains(q) && q.name@ != preset.name@ ==> stored.contains(q)
        }),
{
    let name = preset.name@;
    let kept = without_name(presets, name);
    let stored = kept.push(preset);
    let f = name_differs(name);
    assert forall|i: int| 0 <= i < stored.len() - 1 implies (#[trigger] stored[i]).name@ != name by {
        presets.lemma_filter_pred(f, i);
        assert(stored[i] == kept[i]);
    }
    assert forall|q: Preset| #[trigger] presets.contains(q) && q.name@ != name implies stored.contains(q) by {
        let k = choose|k: int| 0 <= k < presets.len() && presets[k] == q;
        presets.lemma_filter_contains(f, k);
        let j = choose|j: int| 0 <= j < kept.len() && kept[j] == q;
        assert(stored[j] == q);
    }
    lemma_first_named_at_end(stored, name, 0);
}

/// No two presets share a name.
pub open spec fn names_unique(presets: Seq<Preset>) -> bool {
    forall|i: int, j: int| 0 <= i < j < presets.len() ==> (#[trigger] presets[i]).name@ != (#[trigger] presets[j]).name@
}

/// Storing presets one by one never leaves two presets with one name.
pub proof fn lemma_upsert_keeps_names_unique(presets: Seq<Preset>, preset: Preset)
    requires
        names_unique(presets),
    ensures
        names_unique(without_name(presets, preset.name@).push(preset)),
{
    let name = preset.name@;
    let f = name_differs(name);
    let kept = presets.filter(f);
    let stored = kept.push(preset);
    lemma_upsert_keeps_one_preset_per_name(presets, preset);
    lemma_filter_keeps_names_unique(presets, f);
    assert forall|i: int, j: int| 0 <= i < j < stored.len() implies (#[trigger] stored[i]).name@ != (#[trigger] stored[j]).name@ by {
        if j < stored.len() - 1 {
            assert(stored[i] == kept[i] && stored[j] == kept[j]);
        }
    }
}

proof fn lemma_filter_keeps_names_unique(presets: Seq<Preset>, f: spec_fn(Preset) -> bool)
    requires
        names_unique(presets),
    ensures
        names_unique(presets.filter(f)),
    decreases presets.len(),
{
    reveal_with_fuel(Seq::<_>::filter, 1);
    if presets.len() > 0 {
        let rest = presets.drop_last();
        assert(names_unique(rest)) by {
            assert forall|i: int, j: int| 0 <= i < j < rest.len() implies (#[trigger] rest[i]).name@ != (#[trigger] rest[j]).name@ by {
                assert(rest[i] == presets[i] && rest[j] == presets[j]);
            }
        }
        lemma_filter_keeps_names_unique(rest, f);
        let fr = rest.filter(f);
        if f(presets.last()) {
            let out = fr.push(presets.last());
            assert(presets.filter(f) == out);
            assert forall|i: int, j: int| 0 <= i < j < out.len() implies (#[trigger] out[i]).name@ != (#[trigger] out[j]).name@ by {
                if j == out.len() - 1 {
                    rest.lemma_filter_contains_rev(f, out[i]);
                    assert(fr.contains(out[i])) by {
                        assert(fr[i] == out[i]);
                    }
                    let k = choose|k: int| 0 <= k < rest.len() && rest[k] == out[i];
                    assert(presets[k] == rest[k]);
                    assert(presets[presets.len() - 1] == presets.last());
                } else {
                    assert(out[i] == fr[i] && out[j] == fr[j]);
                }
            }
        } else {
            assert(presets.filter(f) == fr);
        }
    }
}

proof fn lemma_first_named_at_end(presets: Seq<Preset>, name: Seq<char>, from: int)
    requires
        0 <= from < presets.len(),
        presets.last().name@ == name,
        forall|i: int| 0 <= i < presets.len() - 1 ==> (#[trigger] presets[i]).name@ != name,
    ensures
        first_named(presets, name, from) == Some(presets.len() - 1),
    decreases presets.len() - from,
{
    if from < presets.len() - 1 {
        assert(presets[from].name@ != name);
        lemma_first_named_at_end(presets, name, from + 1);
    }
}

/// Index of the first preset named `name`.
pub open spec fn first_named(presets: Seq<Preset>, name: Seq<char>, from: int) -> Option<int>
    decreases presets.len() - from,
{
    if from < 0 || from >= presets.len() {
        None
    } else if presets[from].name@ == name {
        Some(from)
    } else {
        first_named(presets, name, from + 1)
    }
}

/// Finds the first preset named `name` (the active preset is the one named
/// by the configured layout).
pub fn find_preset(presets: &Vec<Preset>, name: &str) -> (r: Option<usize>)
    ensures
        match r {
            Some(i) => first_named(presets@, name@, 0) == Some(i as int) && i < presets@.len()
                && presets@[i as int].name@ == name@,
            None => first_named(presets@, name@, 0) is None,
        },
{
    let mut i: usize = 0;
    while i < presets.len()
        invariant
            i <= presets@.len(),
            first_named(presets@, name@, i as int) == first_named(presets@, name@, 0),
        decreases presets@.len() - i,
    {
        if crate::text::same_text(presets[i].name.as_str(), name) {
            return Some(i);
        }
        i = i + 1;
    }
    None
}

/// Adds `n` warnings to a counter, saturating at the counter's maximum.
pub fn add_warning_count(count: u64, n: usize) -> (r: u64)
    ensures
        r == (if count + n > u64::MAX { u64::MAX as int } else { count + n }),
{
    let n = n as u64;
    if count > u64::MAX - n {
        u64::MAX
    } else {
        count + n
    }
}

/// Collection of imported presets.
pub struct PresetManager {
    presets: Vec<Preset>,
}

impl PresetManager {
    /// An empty collection.
    pub fn new() -> (r: Self)
        ensures
            r.presets().len() == 0,
    {
        PresetManager { presets: Vec::new() }
    }

    pub closed spec fn presets(&self) -> Seq<Preset> {
        self.presets@
    }

    /// Imports a preset file into the collection. Loading is not wired to
    /// the collection yet: the call succeeds and leaves it unchanged.
    pub fn import_preset(&mut self, preset_path: &str) -> (r: Result<(), Error>)
        ensures
            r is Ok,
            final(self).presets() == old(self).presets(),
    {
        Ok(())
    }

    /// All presets of the collection.
    pub fn list_presets(&self) -> (r: &[Preset])
        ensures
            r@ == self.presets(),
    {
        self.presets.as_slice()
    }
}

impl Default for PresetManager {
    fn default() -> (r: Self)
        ensures
            r.presets().len() == 0,
    {
        Self::new()
    }
}

} // verus!
