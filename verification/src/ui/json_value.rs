//! JSON documents as the management service edits them: the value tree and
//! the recursive merge that applies a partial configuration update.

use vstd::prelude::*;

verus! {

/// A JSON value. Numbers are kept as their JSON text; an object is a list
/// of members.
#[derive(Debug)]
pub enum JsonValue {
    Null,
    Bool(bool),
    Number(String),
    Text(String),
    Array(Vec<JsonValue>),
    Object(Vec<(String, JsonValue)>),
}

/// Mathematical value of a [`JsonValue`].
pub enum JsonView {
    Null,
    Bool(bool),
    Number(Seq<char>),
    Text(Seq<char>),
    Array(Seq<JsonView>),
    Object(Seq<(Seq<char>, JsonView)>),
}

/// View of a JSON value.
pub open spec fn json_view(v: JsonValue) -> JsonView
    decreases v,
{
    match v {
        JsonValue::Null => JsonView::Null,
        JsonValue::Bool(b) => JsonView::Bool(b),
        JsonValue::Number(n) => JsonView::Number(n@),
        JsonValue::Text(t) => JsonView::Text(t@),
        JsonValue::Array(items) => {
            proof {
                assert(decreases_to!(items => items@));
            }
            JsonView::Array(items_view(items@))
        },
        JsonValue::Object(members) => {
            proof {
                assert(decreases_to!(members => members@));
            }
            JsonView::Object(members_view(members@))
        },
    }
}

/// Views of a list of JSON values.
pub open spec fn items_view(s: Seq<JsonValue>) -> Seq<JsonView>
    decreases s,
{
    if s.len() == 0 {
        seq![]
    } else {
        proof {
            assert(decreases_to!(s => s[s.len() - 1]));
        }
        items_view(s.drop_last()).push(json_view(s[s.len() - 1]))
    }
}

/// Views of a list of object members.
pub open spec fn members_view(s: Seq<(String, JsonValue)>) -> Seq<(Seq<char>, JsonView)>
    decreases s,
{
    if s.len() == 0 {
        seq![]
    } else {
        proof {
            assert(decreases_to!(s => s[s.len() - 1]));
        }
        let last = s[s.len() - 1];
        members_view(s.drop_last()).push((last.0@, json_view(last.1)))
    }
}

impl View for JsonValue {
    type V = JsonView;

    open spec fn view(&self) -> JsonView {
        json_view(*self)
    }
}

/// Appends the member `name: value` to an object's member list.
pub fn push_member(members: &mut Vec<(String, JsonValue)>, name: &str, value: JsonValue)
    ensures
        members_view(final(members)@) == members_view(old(members)@).push((name@, value@)),
{
    let ghost before = members@;
    members.push((String::from_str(name), value));
    proof {
        assert(members@.drop_last() =~= before);
    }
}

/// Appends `value` to an array's item list.
pub fn push_item(items: &mut Vec<JsonValue>, value: JsonValue)
    ensures
        items_view(final(items)@) == items_view(old(items)@).push(value@),
{
    let ghost before = items@;
    items.push(value);
    proof {
        assert(items@.drop_last() =~= before);
    }
}

/// A JSON number holding the decimal text of `n`.
pub fn number_value(n: i64) -> (r: JsonValue)
    ensures
        r@ == JsonView::Number(crate::text::decimal(n as int)),
{
    JsonValue::Number(crate::text::decimal_string(n))
}

/// A JSON number holding the decimal text of `n`.
pub fn unsigned_value(n: u64) -> (r: JsonValue)
    ensures
        r@ == JsonView::Number(crate::text::decimal_digits(n as nat)),
{
    let mut text = String::new();
    crate::text::push_decimal_u64(&mut text, n);
    proof {
        assert(text@ =~= crate::text::decimal_digits(n as nat));
    }
    JsonValue::Number(text)
}

/// A JSON string holding `s`.
pub fn text_value(s: &str) -> (r: JsonValue)
    ensures
        r@ == JsonView::Text(s@),
{
    JsonValue::Text(String::from_str(s))
}

/// Index of the first member named `key` at or after `from`.
pub open spec fn member_index(members: Seq<(Seq<char>, JsonView)>, key: Seq<char>, from: int) -> Option<int>
    decreases members.len() - from,
{
    if from < 0 || from >= members.len() {
        None
    } else if members[from].0 == key {
        Some(from)
    } else {
        member_index(members, key, from + 1)
    }
}

/// The result of merging `patch` into `target`: when both are objects, each
/// member of the patch is merged into the target's member of that name, or
/// added after the target's members when there is none; otherwise the patch
/// replaces the target.
pub open spec fn merged(target: JsonView, patch: JsonView) -> JsonView
    decreases patch,
{
    match patch {
        JsonView::Object(p) => match target {
            JsonView::Object(t) => JsonView::Object(merged_members(t, p)),
            _ => patch,
        },
        _ => patch,
    }
}

/// Members of `target` after merging the members of `patch` in order.
pub open spec fn merged_members(target: Seq<(Seq<char>, JsonView)>, patch: Seq<(Seq<char>, JsonView)>) -> Seq<(Seq<char>, JsonView)>
    decreases patch,
{
    if patch.len() == 0 {
        target
    } else {
        let before = merged_members(target, patch.drop_last());
        let last = patch[patch.len() - 1];
        proof {
            assert(decreases_to!(patch => patch[patch.len() - 1]));
            assert(decreases_to!(patch[patch.len() - 1] => last.1));
        }
        match member_index(before, last.0, 0) {
            Some(i) => before.update(i, (last.0, merged(before[i].1, last.1))),
            None => before.push(last),
        }
    }
}

/// Some member is named `key`.
pub open spec fn has_member(members: Seq<(Seq<char>, JsonView)>, key: Seq<char>) -> bool {
    exists|i: int| 0 <= i < members.len() && members[i].0 == key
}

proof fn lemma_merged_members_shape(t: Seq<(Seq<char>, JsonView)>, p: Seq<(Seq<char>, JsonView)>)
    ensures
        merged_members(t, p).len() >= t.len(),
        forall|i: int| 0 <= i < t.len() ==> (#[trigger] merged_members(t, p)[i]).0 == t[i].0,
        forall|i: int| 0 <= i < t.len() && !has_member(p, t[i].0) ==> #[trigger] merged_members(t, p)[i] == t[i],
        forall|j: int| 0 <= j < p.len() ==> has_member(merged_members(t, p), #[trigger] p[j].0),
    decreases p.len(),
{
    if p.len() > 0 {
        let rest = p.drop_last();
        lemma_merged_members_shape(t, rest);
        let before = merged_members(t, rest);
        let last = p[p.len() - 1];
        let after = merged_members(t, p);
        lemma_member_index_found(before, last.0, 0);
        assert forall|i: int| 0 <= i < t.len() && !has_member(p, t[i].0) implies #[trigger] after[i] == t[i] by {
            if has_member(rest, t[i].0) {
                let j = choose|j: int| 0 <= j < rest.len() && rest[j].0 == t[i].0;
                assert(p[j] == rest[j]);
            }
            assert(before[i] == t[i]);
            assert(last.0 != t[i].0) by {
                assert(p[p.len() - 1] == last);
            }
        }
        assert forall|j: int| 0 <= j < p.len() implies has_member(after, #[trigger] p[j].0) by {
            if j < p.len() - 1 {
                assert(rest[j] == p[j]);
                assert(has_member(before, rest[j].0));
                let k = choose|k: int| 0 <= k < before.len() && before[k].0 == rest[j].0;
                assert(after[k].0 == before[k].0);
            } else {
                match member_index(before, last.0, 0) {
                    Some(k) => {
                        assert(after[k].0 == last.0);
                    },
                    None => {
                        assert(after[before.len() as int] == last);
                    },
                }
            }
        }
    }
}

/// Merging an object patch into an object keeps every member: each member
/// the patch names is in the result, and each member of the target that the
/// patch does not name keeps its place and its value.
pub proof fn lemma_merge_keeps_members(t: Seq<(Seq<char>, JsonView)>, p: Seq<(Seq<char>, JsonView)>)
    ensures
        merged(JsonView::Object(t), JsonView::Object(p)) == JsonView::Object(merged_members(t, p)),
        forall|j: int| 0 <= j < p.len() ==> has_member(merged_members(t, p), #[trigger] p[j].0),
        forall|i: int| 0 <= i < t.len() && !has_member(p, t[i].0) ==> #[trigger] merged_members(t, p)[i] == t[i],
{
    lemma_merged_members_shape(t, p);
}

/// A patch that is not an object replaces the target, and an object patch
/// without members leaves an object target unchanged.
pub proof fn lemma_merge_replaces_or_keeps(target: JsonView, patch: JsonView)
    ensures
        !(patch is Object) ==> merged(target, patch) == patch,
        !(target is Object) ==> merged(target, patch) == patch,
        (target is Object && patch == JsonView::Object(seq![])) ==> merged(target, patch) == target,
{
}

proof fn lemma_member_index_first(members: Seq<(Seq<char>, JsonView)>, key: Seq<char>, from: int)
    requires
        0 <= from,
    ensures
        member_index(members, key, from) matches Some(i) ==> forall|j: int| from <= j < i ==> #[trigger] members[j].0 != key,
    decreases members.len() - from,
{
    if from < members.len() && members[from].0 != key {
        lemma_member_index_first(members, key, from + 1);
    }
}

/// Merging a one-member patch `{key: value}` into an object: when the object
/// has no member `key`, the member is appended; otherwise the first member
/// named `key` gets the merge of its old value and `value`, and every other
/// member is kept as it was.
pub proof fn lemma_one_member_patch(target: Seq<(Seq<char>, JsonView)>, key: Seq<char>, value: JsonView, i: int)
    ensures
        !has_member(target, key) ==> merged_members(target, seq![(key, value)]) == target.push((key, value)),
        (0 <= i < target.len() && target[i].0 == key && forall|j: int| 0 <= j < i ==> #[trigger] target[j].0 != key)
            ==> merged_members(target, seq![(key, value)]) == target.update(i, (key, merged(target[i].1, value))),
{
    let p = seq![(key, value)];
    assert(p.drop_last() =~= Seq::<(Seq<char>, JsonView)>::empty());
    assert(merged_members(target, p.drop_last()) == target);
    lemma_member_index_found(target, key, 0);
    lemma_member_index_first(target, key, 0);
    if !has_member(target, key) {
        if let Some(k) = member_index(target, key, 0) {
            assert(target[k].0 == key);
        }
    }
    if 0 <= i < target.len() && target[i].0 == key && forall|j: int| 0 <= j < i ==> #[trigger] target[j].0 != key {
        match member_index(target, key, 0) {
            Some(k) => {
                if k < i {
                    assert(target[k].0 != key);
                }
                if k > i {
                    assert(target[i].0 != key);
                }
            },
            None => {
                assert(target[i].0 != key);
            },
        }
    }
}

proof fn lemma_member_index_found(members: Seq<(Seq<char>, JsonView)>, key: Seq<char>, from: int)
    requires
        0 <= from,
    ensures
        member_index(members, key, from) matches Some(i) ==> from <= i < members.len() && members[i].0 == key,
        member_index(members, key, from) is None ==> forall|j: int| from <= j < members.len() ==> #[trigger] members[j].0 != key,
    decreases members.len() - from,
{
    if from < members.len() && members[from].0 != key {
        lemma_member_index_found(members, key, from + 1);
    }
}

proof fn lemma_members_view_index(s: Seq<(String, JsonValue)>)
    ensures
        members_view(s).len() == s.len(),
        forall|j: int| 0 <= j < s.len() ==> #[trigger] members_view(s)[j] == (s[j].0@, json_view(s[j].1)),
    decreases s.len(),
{
    if s.len() > 0 {
        lemma_members_view_index(s.drop_last());
        assert forall|j: int| 0 <= j < s.len() implies #[trigger] members_view(s)[j] == (s[j].0@, json_view(s[j].1)) by {
            if j < s.len() - 1 {
                assert(s.drop_last()[j] == s[j]);
            }
        }
    }
}

/// Position of the first member named `key`.
fn find_member(members: &Vec<(String, JsonValue)>, key: &str) -> (r: Option<usize>)
    ensures
        match r {
            Some(i) => member_index(members_view(members@), key@, 0) == Some(i as int) && i < members@.len(),
            None => member_index(members_view(members@), key@, 0) is None,
        },
{
    let ghost mv = members_view(members@);
    proof {
        lemma_members_view_index(members@);
    }
    let mut i: usize = 0;
    while i < members.len()
        invariant
            i <= members@.len(),
            mv == members_view(members@),
            mv.len() == members@.len(),
            forall|j: int| 0 <= j < members@.len() ==> #[trigger] mv[j] == (members@[j].0@, json_view(members@[j].1)),
            member_index(mv, key@, i as int) == member_index(mv, key@, 0),
        decreases members@.len() - i,
    {
        assert(mv[i as int].0 == members@[i as int].0@);
        if crate::text::same_text(members[i].0.as_str(), key) {
            return Some(i);
        }
        i = i + 1;
    }
    None
}

/// Value of the first member named `key`, when `v` is an object.
pub open spec fn member_of(v: JsonView, key: Seq<char>) -> Option<JsonView> {
    match v {
        JsonView::Object(ms) => match member_index(ms, key, 0) {
            Some(i) => Some(ms[i].1),
            None => None,
        },
        _ => None,
    }
}

/// Looks up the member named `key` of an object (what `Value::get` does
/// with a string key).
pub fn get_member<'a>(v: &'a JsonValue, key: &str) -> (r: Option<&'a JsonValue>)
    ensures
        match r {
            Some(x) => member_of(v@, key@) == Some(x@),
            None => member_of(v@, key@) is None,
        },
{
    match v {
        JsonValue::Object(members) => {
            let found = find_member(members, key);
            proof {
                lemma_members_view_index(members@);
            }
            match found {
                Some(i) => Some(&members[i].1),
                None => None,
            }
        },
        _ => None,
    }
}

/// Merges `patch` into `target` in place (see [`merged`]).
pub fn merge_json_object(target: &mut JsonValue, patch: JsonValue)
    ensures
        final(target)@ == merged(old(target)@, patch@),
    decreases patch,
{
    let mut current = JsonValue::Null;
    std::mem::swap(&mut current, target);
    let result = match patch {
        JsonValue::Object(p) => match current {
            JsonValue::Object(t) => JsonValue::Object(merge_members(t, p)),
            _ => JsonValue::Object(p),
        },
        other => other,
    };
    *target = result;
}

/// Merges the members of `patch` into `target` in order.
fn merge_members(target: Vec<(String, JsonValue)>, patch: Vec<(String, JsonValue)>) -> (r: Vec<(String, JsonValue)>)
    ensures
        members_view(r@) == merged_members(members_view(target@), members_view(patch@)),
    decreases patch,
{
    let ghost pv = patch@;
    let ghost tv = members_view(target@);
    let mut out = target;
    proof {
        assert(pv.take(0) =~= seq![]);
    }
    for entry in it: patch.into_iter()
        invariant
            it.seq() == pv,
            pv == patch@,
            members_view(out@) == merged_members(tv, members_view(pv.take(it.index()))),
            it.index() == pv.len() ==> members_view(out@) == merged_members(tv, members_view(pv)),
    {
        let ghost idx = it.index();
        let ghost before = members_view(out@);
        proof {
            let prefix = pv.take(idx + 1);
            assert(prefix.drop_last() =~= pv.take(idx));
            assert(prefix[prefix.len() - 1] == pv[idx]);
            assert(entry == pv[idx]);
            lemma_members_view_index(prefix);
            assert(members_view(prefix).drop_last() =~= members_view(pv.take(idx)));
        }
        let (key, value) = entry;
        proof {
            lemma_members_view_index(out@);
        }
        let found = find_member(&out, key.as_str());
        proof {
            lemma_member_index_found(before, key@, 0);
        }
        match found {
            Some(i) => {
                let (name, current) = out.remove(i);
                let mut slot = current;
                proof {
                    assert(decreases_to!(patch => patch@));
                    assert(decreases_to!(patch@ => patch@[idx]));
                    assert(decreases_to!(patch@[idx] => patch@[idx].1));
                    assert(patch@[idx].1 == value);
                }
                merge_json_object(&mut slot, value);
                out.insert(i, (name, slot));
                proof {
                    lemma_members_view_index(out@);
                    assert(name@ == key@);
                    assert(members_view(out@) =~= before.update(i as int, (key@, merged(before[i as int].1, value@))));
                }
            },
            None => {
                out.push((key, value));
                proof {
                    lemma_members_view_index(out@);
                    assert(members_view(out@) =~= before.push((key@, value@)));
                }
            },
        }
        proof {
            if idx + 1 == pv.len() {
                assert(pv.take(idx + 1) =~= pv);
            }
        }
    }
    out
}

} // verus!
