//! Pressed/released state of keyboard keys.

use std::collections::HashMap;
use vstd::prelude::*;

verus! {

broadcast use vstd::std_specs::hash::group_hash_axioms;

/// Whether `keycode` counts as pressed in the key map `keys`:
/// a key that was never recorded counts as released.
pub open spec fn key_down(keys: Map<u16, bool>, keycode: u16) -> bool {
    keys.contains_key(keycode) && keys[keycode]
}

/// The set of key codes that are currently down in `keys`.
pub open spec fn down_set(keys: Map<u16, bool>) -> Set<u16> {
    Set::new(|k: u16| key_down(keys, k))
}

/// Once every entry of an enumeration of `m` has been visited, the keys
/// collected from entries whose state is "down" are exactly the down set.
proof fn lemma_collected_all(seq: Seq<(&u16, &bool)>, n: int, out: Seq<u16>, m: Map<u16, bool>)
    requires
        0 <= n <= seq.len(),
        forall|i: int| 0 <= i < seq.len() ==>
            #[trigger] m.contains_key(*seq[i].0) && m[*seq[i].0] == *seq[i].1,
        forall|k: u16| #[trigger] m.contains_key(k) ==> seq.contains((&k, &m[k])),
        forall|j: int| 0 <= j < out.len() ==> key_down(m, #[trigger] out[j]),
        forall|i: int| 0 <= i < n && *seq[i].1 ==> out.contains(*#[trigger] seq[i].0),
    ensures
        n == seq.len() ==> out.to_set() == down_set(m),
{
    if n == seq.len() {
        assert forall|k: u16| #[trigger] down_set(m).contains(k) implies out.to_set().contains(k) by {
            assert(seq.contains((&k, &m[k])));
            let i = choose|i: int| 0 <= i < seq.len() && seq[i] == (&k, &m[k]);
            assert(m.contains_key(*seq[i].0));
            assert(out.contains(*seq[i].0));
        }
        assert forall|k: u16| #[trigger] out.to_set().contains(k) implies down_set(m).contains(k) by {
            let j = choose|j: int| 0 <= j < out.len() && out[j] == k;
            assert(key_down(m, out[j]));
        }
        assert(out.to_set() =~= down_set(m));
    }
}

/// Key map after applying a key event: changed only by a real transition.
pub open spec fn after_key_event(keys: Map<u16, bool>, keycode: u16, pressed: bool) -> Map<u16, bool> {
    if key_down(keys, keycode) != pressed { keys.insert(keycode, pressed) } else { keys }
}

/// Keyboard state: the last reported state of every key seen so far.
pub struct KeyboardState {
    keys: HashMap<u16, bool>,
}

impl View for KeyboardState {
    type V = Map<u16, bool>;

    closed spec fn view(&self) -> Map<u16, bool> {
        self.keys@
    }
}

impl KeyboardState {
    /// Creates a state in which no key has been recorded.
    pub fn new() -> (s: Self)
        ensures
            s@ == Map::<u16, bool>::empty(),
    {
        KeyboardState { keys: HashMap::new() }
    }

    /// Records the state of one key.
    pub fn update(&mut self, keycode: u16, pressed: bool)
        ensures
            final(self)@ == old(self)@.insert(keycode, pressed),
    {
        self.keys.insert(keycode, pressed);
    }

    /// Whether the key is currently down (unknown keys are up).
    pub fn is_pressed(&self, keycode: u16) -> (r: bool)
        ensures
            r == key_down(self@, keycode),
    {
        match self.keys.get(&keycode) {
            Some(p) => *p,
            None => false,
        }
    }

    /// All key codes currently down, each exactly once, in no fixed order.
    pub fn pressed_keys(&self) -> (r: Vec<u16>)
        ensures
            r@.to_set() == down_set(self@),
            r@.no_duplicates(),
    {
        let mut out: Vec<u16> = Vec::new();
        for entry in it: self.keys.iter()
            invariant_except_break
                forall|j: int| #![trigger out@[j]] 0 <= j < out@.len() ==> exists|i: int| #![trigger it.seq()[i]] 0 <= i < it.index() && *it.seq()[i].0 == out@[j],
            invariant
                it.seq().no_duplicates(),
                it.seq().len() == self.keys@.dom().len(),
                forall|i: int| 0 <= i < it.seq().len() ==>
                    #[trigger] self.keys@.contains_key(*it.seq()[i].0)
                    && self.keys@[*it.seq()[i].0] == *it.seq()[i].1,
                forall|k: u16| #[trigger] self.keys@.contains_key(k) ==> it.seq().contains((&k, &self.keys@[k])),
                forall|j: int| 0 <= j < out@.len() ==> key_down(self@, #[trigger] out@[j]),
                out@.no_duplicates(),
                forall|i: int| 0 <= i < it.index() && *it.seq()[i].1 ==> out@.contains(*#[trigger] it.seq()[i].0),
                it.index() == it.seq().len() ==> out@.to_set() == down_set(self@),
        {
            let ghost idx = it.index();
            let ghost before = out@;
            let (k, p) = entry;
            proof {
                assert(entry == it.seq()[idx]);
                assert(self.keys@.contains_key(*k));
                assert forall|j: int| 0 <= j < before.len() implies before[j] != *k by {
                    let i = choose|i: int| #![trigger it.seq()[i]] 0 <= i < idx && *it.seq()[i].0 == before[j];
                    assert(self.keys@.contains_key(*it.seq()[i].0));
                    if before[j] == *k {
                        assert(it.seq()[i] == it.seq()[idx]);
                    }
                }
            }
            if *p {
                out.push(*k);
                proof {
                    assert(out@ == before.push(*k));
                    assert forall|i: int| 0 <= i < idx + 1 && *it.seq()[i].1 implies out@.contains(*#[trigger] it.seq()[i].0) by {
                        if i < idx {
                            let j = choose|j: int| 0 <= j < before.len() && before[j] == *it.seq()[i].0;
                            assert(out@[j] == before[j]);
                        } else {
                            assert(out@[before.len() as int] == *k);
                        }
                    }
                }
            }
            proof {
                assert forall|i: int| 0 <= i < idx + 1 && *it.seq()[i].1 implies out@.contains(*#[trigger] it.seq()[i].0) by {
                    if i < idx {
                        let j = choose|j: int| 0 <= j < before.len() && before[j] == *it.seq()[i].0;
                        assert(out@.contains(before[j]));
                    }
                }
                assert forall|j: int| #![trigger out@[j]] 0 <= j < out@.len() implies exists|i: int| #![trigger it.seq()[i]] 0 <= i < idx + 1 && *it.seq()[i].0 == out@[j] by {
                    if j < before.len() {
                        assert(out@[j] == before[j]);
                        let i = choose|i: int| #![trigger it.seq()[i]] 0 <= i < idx && *it.seq()[i].0 == before[j];
                        assert(*it.seq()[i].0 == out@[j]);
                    } else {
                        assert(*it.seq()[idx].0 == out@[j]);
                    }
                }
                lemma_collected_all(it.seq(), idx + 1, out@, self.keys@);
            }
        }
        out
    }

    /// Applies one captured key event and says whether it is a real change
    /// that has to be broadcast. A press of a key that is already down (auto
    /// repeat) or a release of a key that is already up is dropped and leaves
    /// the state as it was.
    pub fn apply_key_event(&mut self, keycode: u16, pressed: bool) -> (changed: bool)
        ensures
            changed == (key_down(old(self)@, keycode) != pressed),
            final(self)@ == after_key_event(old(self)@, keycode, pressed),
    {
        if self.is_pressed(keycode) == pressed {
            false
        } else {
            self.update(keycode, pressed);
            true
        }
    }

    /// Forgets every recorded key.
    pub fn clear(&mut self)
        ensures
            final(self)@ == Map::<u16, bool>::empty(),
    {
        self.keys.clear();
    }
}

impl Default for KeyboardState {
    fn default() -> (s: Self)
        ensures
            s@ == Map::<u16, bool>::empty(),
    {
        Self::new()
    }
}

/// Repeat filter: after a key event has been applied the key is in the
/// reported state, so delivering the very same event again is not a change
/// (nothing is broadcast) and leaves the state as it is.
pub proof fn lemma_repeated_key_event_is_dropped(keys: Map<u16, bool>, keycode: u16, pressed: bool)
    ensures
        key_down(after_key_event(keys, keycode, pressed), keycode) == pressed,
        after_key_event(after_key_event(keys, keycode, pressed), keycode, pressed) == after_key_event(keys, keycode, pressed),
{
}

/// After `update`, the queried key reports exactly the recorded state and
/// every other key keeps its answer.
pub proof fn lemma_update_then_query(keys: Map<u16, bool>, keycode: u16, pressed: bool, other: u16)
    ensures
        key_down(keys.insert(keycode, pressed), keycode) == pressed,
        other != keycode ==> key_down(keys.insert(keycode, pressed), other) == key_down(keys, other),
{
}

} // verus!
