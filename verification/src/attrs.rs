//! Attribute lists: lookup by key path, and the three edits a policy makes.
//!
//! An attribute list is modelled as the sequence of its entries. Keys may
//! repeat; every read goes to the first entry with the key.

use std::borrow::Cow;
use vstd::prelude::*;
use vstd::slice::slice_subrange;
use crate::otel::{AnyValue, InstrumentationScope, KeyValue, Resource};
use crate::text::str_view;

verus! {

// ─── Model ───────────────────────────────────────────────────────────

/// `s` when it has at least one character. An empty string reads as absent.
pub open spec fn present(s: Seq<char>) -> Option<Seq<char>> {
    if s.len() > 0 {
        Some(s)
    } else {
        None
    }
}

/// What a value reads as: its string, when it has a non-empty one.
pub open spec fn text_of(v: Option<AnyValue>) -> Option<Seq<char>> {
    match v {
        Some(a) => match a.string_value {
            Some(s) => present(s@),
            None => None,
        },
        None => None,
    }
}

/// The nested attribute list of a value, when it carries one.
pub open spec fn nested_of(v: Option<AnyValue>) -> Option<Seq<KeyValue>> {
    match v {
        Some(a) => match a.kvlist_value {
            Some(list) => match list.values {
                Some(inner) => Some(inner@),
                None => None,
            },
            None => None,
        },
        None => None,
    }
}

/// `v` is a string value holding `text` and nothing else.
pub open spec fn is_text(v: Option<AnyValue>, text: Seq<char>) -> bool {
    &&& v matches Some(a)
    &&& a.string_value matches Some(s)
    &&& s@ == text
    &&& a.bool_value is None
    &&& a.int_value is None
    &&& a.double_value is None
    &&& a.array_value is None
    &&& a.kvlist_value is None
    &&& a.bytes_value is None
}

/// The keys of a path, as character sequences.
pub open spec fn path_keys(path: Seq<String>) -> Seq<Seq<char>> {
    Seq::new(path.len(), |i: int| path[i]@)
}

/// Some entry of `attrs` has the key `key`.
pub open spec fn has_key(attrs: Seq<KeyValue>, key: Seq<char>) -> bool {
    exists|i: int| 0 <= i < attrs.len() && (#[trigger] attrs[i]).key@ == key
}

/// `i` is the index of the first entry of `attrs` with the key `key`.
pub open spec fn is_first_match(attrs: Seq<KeyValue>, key: Seq<char>, i: int) -> bool {
    &&& 0 <= i < attrs.len()
    &&& attrs[i].key@ == key
    &&& forall|j: int| 0 <= j < i ==> (#[trigger] attrs[j]).key@ != key
}

/// The index of the first entry of `attrs` with the key `key`.
pub open spec fn first_match(attrs: Seq<KeyValue>, key: Seq<char>) -> Option<int> {
    if exists|i: int| is_first_match(attrs, key, i) {
        Some(choose|i: int| is_first_match(attrs, key, i))
    } else {
        None
    }
}

/// The string that `path` leads to in `attrs`.
///
/// The first entry whose key is `path[0]` decides. A path of one key reads
/// that entry's string; a longer path descends into the entry's nested list.
/// Anything else on the way is absent.
pub open spec fn resolve(attrs: Seq<KeyValue>, path: Seq<Seq<char>>) -> Option<Seq<char>>
    decreases path.len(),
{
    if path.len() == 0 {
        None
    } else {
        match first_match(attrs, path[0]) {
            None => None,
            Some(i) => if path.len() == 1 {
                text_of(attrs[i].value)
            } else {
                match nested_of(attrs[i].value) {
                    Some(inner) => resolve(inner, path.drop_first()),
                    None => None,
                }
            },
        }
    }
}

/// The test that an entry is not under `key`.
pub open spec fn not_under(key: Seq<char>) -> spec_fn(KeyValue) -> bool {
    |kv: KeyValue| kv.key@ != key
}

/// `attrs` without the entries whose key is `key`.
pub open spec fn without_key(attrs: Seq<KeyValue>, key: Seq<char>) -> Seq<KeyValue> {
    attrs.filter(not_under(key))
}

/// `after` is `before` with the attribute `key` set to the string `value`.
///
/// An existing first entry is overwritten in place when `upsert` holds and is
/// left alone otherwise; without one, a new entry is appended.
pub open spec fn attr_set(
    before: Seq<KeyValue>,
    after: Seq<KeyValue>,
    key: Seq<char>,
    value: Seq<char>,
    upsert: bool,
) -> bool {
    match first_match(before, key) {
        Some(i) => if upsert {
            &&& after.len() == before.len()
            &&& after[i].key == before[i].key
            &&& is_text(after[i].value, value)
            &&& forall|j: int| 0 <= j < before.len() && j != i ==> after[j] == before[j]
        } else {
            after == before
        },
        None => {
            &&& after.len() == before.len() + 1
            &&& after.drop_last() == before
            &&& after.last().key@ == key
            &&& is_text(after.last().value, value)
        },
    }
}

/// `after` is `before` with the first entry under `from` moved to the end
/// under the key `to`.
///
/// Without a source entry nothing changes. With `upsert` unset, an entry
/// already under `to` blocks the move. Otherwise every entry under `to` is
/// removed before the source entry, value untouched, is appended.
pub open spec fn attr_renamed(
    before: Seq<KeyValue>,
    after: Seq<KeyValue>,
    from: Seq<char>,
    to: Seq<char>,
    upsert: bool,
) -> bool {
    match first_match(before, from) {
        None => after == before,
        Some(i) => if !upsert && has_key(before, to) {
            after == before
        } else {
            &&& after.len() > 0
            &&& after.drop_last() == without_key(before.remove(i), to)
            &&& after.last().key@ == to
            &&& after.last().value == before[i].value
        },
    }
}

/// The attributes of an optional resource.
pub open spec fn resource_attributes(resource: Option<Resource>) -> Seq<KeyValue> {
    match resource {
        Some(r) => r.attributes@,
        None => Seq::empty(),
    }
}

/// The attributes of an optional scope.
pub open spec fn scope_attributes(scope: Option<InstrumentationScope>) -> Seq<KeyValue> {
    match scope {
        Some(s) => s.attributes@,
        None => Seq::empty(),
    }
}

/// The view of an optional string result.
pub open spec fn cow_view<'a>(r: Option<Cow<'a, str>>) -> Option<Seq<char>> {
    match r {
        Some(c) => Some(c@),
        None => None,
    }
}

// ─── Lemmas ──────────────────────────────────────────────────────────

/// A first match, once found, is what `first_match` names.
pub proof fn lemma_first_match(attrs: Seq<KeyValue>, key: Seq<char>, i: int)
    requires
        is_first_match(attrs, key, i),
    ensures
        first_match(attrs, key) == Some(i),
        has_key(attrs, key),
{
    let c = choose|c: int| is_first_match(attrs, key, c);
    assert(is_first_match(attrs, key, c));
    if c < i {
        assert(attrs[c].key@ != key);
    }
    if i < c {
        assert(attrs[i].key@ != key);
    }
}

/// `first_match` names an index exactly when the key occurs.
pub proof fn lemma_first_match_iff_has_key(attrs: Seq<KeyValue>, key: Seq<char>)
    ensures
        first_match(attrs, key) is Some <==> has_key(attrs, key),
        first_match(attrs, key) matches Some(i) ==> is_first_match(attrs, key, i),
    decreases attrs.len(),
{
    if has_key(attrs, key) {
        let w = choose|i: int| 0 <= i < attrs.len() && (#[trigger] attrs[i]).key@ == key;
        lemma_least_match(attrs, key, w);
    }
}

/// Below any match lies a first match.
proof fn lemma_least_match(attrs: Seq<KeyValue>, key: Seq<char>, w: int)
    requires
        0 <= w < attrs.len(),
        attrs[w].key@ == key,
    ensures
        exists|i: int| is_first_match(attrs, key, i),
    decreases w,
{
    if exists|j: int| 0 <= j < w && (#[trigger] attrs[j]).key@ == key {
        let j = choose|j: int| 0 <= j < w && (#[trigger] attrs[j]).key@ == key;
        lemma_least_match(attrs, key, j);
    } else {
        assert(is_first_match(attrs, key, w));
    }
}

// ─── Laws of resolution ──────────────────────────────────────────────

/// A path of one key reads the string of the first entry under that key. It
/// is absent when no entry has the key, and when that first entry has no
/// string or an empty one; later entries under the key are never consulted.
pub proof fn law_resolve_one_key(attrs: Seq<KeyValue>, path: Seq<Seq<char>>)
    requires
        path.len() == 1,
    ensures
        !has_key(attrs, path[0]) ==> resolve(attrs, path) is None,
        forall|i: int| is_first_match(attrs, path[0], i) ==> resolve(attrs, path) == text_of(attrs[i].value),
        forall|i: int|
            is_first_match(attrs, path[0], i) ==> (resolve(attrs, path) is None <==> {
                ||| attrs[i].value is None
                ||| attrs[i].value.unwrap().string_value is None
                ||| attrs[i].value.unwrap().string_value.unwrap()@.len() == 0
            }),
{
}

/// A longer path descends only through a nested attribute list: it resolves
/// to what the rest of the path resolves to in the nested list of the first
/// entry under its first key, and is absent when that entry's value is
/// anything else.
pub proof fn law_resolve_descends(attrs: Seq<KeyValue>, path: Seq<Seq<char>>)
    requires
        path.len() >= 2,
    ensures
        !has_key(attrs, path[0]) ==> resolve(attrs, path) is None,
        forall|i: int|
            is_first_match(attrs, path[0], i) ==> resolve(attrs, path) == match nested_of(
                attrs[i].value,
            ) {
                Some(inner) => resolve(inner, path.drop_first()),
                None => None,
            },
        forall|i: int|
            is_first_match(attrs, path[0], i) && !(attrs[i].value matches Some(v)
                && v.kvlist_value matches Some(list) && list.values is Some) ==> resolve(
                attrs,
                path,
            ) is None,
{
}

/// An empty path resolves to nothing.
pub proof fn law_resolve_empty_path(attrs: Seq<KeyValue>)
    ensures
        resolve(attrs, Seq::empty()) is None,
{
}

// ─── Reading ─────────────────────────────────────────────────────────

/// The string of a value, when it is set and not empty.
pub fn any_value_string<'a>(val: Option<&'a AnyValue>) -> (r: Option<Cow<'a, str>>)
    ensures
        cow_view(r) == match val {
            Some(v) => text_of(Some(*v)),
            None => None,
        },
{
    match val {
        Some(v) => match &v.string_value {
            Some(s) => non_empty(s.as_str()),
            None => None,
        },
        None => None,
    }
}

/// `s` as a result, absent when empty.
pub fn non_empty<'a>(s: &'a str) -> (r: Option<Cow<'a, str>>)
    ensures
        cow_view(r) == present(s@),
{
    if s.is_empty() {
        None
    } else {
        Some(Cow::Borrowed(s))
    }
}

/// The first key of a path.
pub fn attr_path<'a>(path: &'a [String]) -> (r: Option<&'a str>)
    ensures
        path@.len() == 0 ==> r is None,
        path@.len() > 0 ==> str_view(r) == Some(path@[0]@),
{
    match path.first() {
        Some(s) => Some(s.as_str()),
        None => None,
    }
}

/// The attribute list of a resource; empty when there is none.
pub fn resource_attrs<'a>(resource: Option<&'a Resource>) -> (r: &'a [KeyValue])
    ensures
        r@ == match resource {
            Some(res) => res.attributes@,
            None => Seq::empty(),
        },
{
    match resource {
        Some(res) => res.attributes.as_slice(),
        None => &[],
    }
}

/// The attribute list of a scope; empty when there is none.
pub fn scope_attrs<'a>(scope: Option<&'a InstrumentationScope>) -> (r: &'a [KeyValue])
    ensures
        r@ == match scope {
            Some(s) => s.attributes@,
            None => Seq::empty(),
        },
{
    match scope {
        Some(s) => s.attributes.as_slice(),
        None => &[],
    }
}

/// The index of the first entry of `attrs` under `key`.
pub fn position(attrs: &[KeyValue], key: &str) -> (r: Option<usize>)
    ensures
        r is Some <==> has_key(attrs@, key@),
        match r {
            Some(i) => first_match(attrs@, key@) == Some(i as int),
            None => first_match(attrs@, key@) is None,
        },
{
    let mut i: usize = 0;
    while i < attrs.len()
        invariant
            i <= attrs.len(),
            forall|j: int| 0 <= j < i ==> (#[trigger] attrs@[j]).key@ != key@,
        decreases attrs.len() - i,
    {
        if *attrs[i].key.as_str() == *key {
            proof {
                lemma_first_match(attrs@, key@, i as int);
            }
            return Some(i);
        }
        i += 1;
    }
    None
}

/// Resolves `path` in `attrs`.
pub fn find_attribute_path<'a>(attrs: &'a [KeyValue], path: &[String]) -> (r: Option<Cow<'a, str>>)
    ensures
        cow_view(r) == resolve(attrs@, path_keys(path@)),
{
    if path.is_empty() {
        return None;
    }
    match position(attrs, path[0].as_str()) {
        None => None,
        Some(i) => {
            let kv = &attrs[i];
            if path.len() == 1 {
                return any_value_string(kv.value.as_ref());
            }
            // Traverse into the nested list.
            match &kv.value {
                Some(val) => match &val.kvlist_value {
                    Some(list) => match &list.values {
                        Some(nested) => {
                            let rest = slice_subrange(path, 1, path.len());
                            proof {
                                assert(path_keys(rest@) =~= path_keys(path@).drop_first());
                            }
                            find_attribute_path_owned(nested.as_slice(), rest)
                        },
                        None => None,
                    },
                    None => None,
                },
                None => None,
            }
        },
    }
}

/// Resolves `path` in a nested list. The result is a copy that does not
/// borrow from `attrs`.
pub fn find_attribute_path_owned(attrs: &[KeyValue], path: &[String]) -> (r: Option<
    Cow<'static, str>,
>)
    ensures
        cow_view(r) == resolve(attrs@, path_keys(path@)),
    decreases path@.len(),
{
    if path.is_empty() {
        return None;
    }
    match position(attrs, path[0].as_str()) {
        None => None,
        Some(i) => {
            let kv = &attrs[i];
            if path.len() == 1 {
                return match &kv.value {
                    Some(val) => match &val.string_value {
                        Some(s) => if !s.as_str().is_empty() {
                            Some(Cow::Owned(s.clone()))
                        } else {
                            None
                        },
                        None => None,
                    },
                    None => None,
                };
            }
            match &kv.value {
                Some(val) => match &val.kvlist_value {
                    Some(list) => match &list.values {
                        Some(nested) => {
                            let rest = slice_subrange(path, 1, path.len());
                            proof {
                                assert(path_keys(rest@) =~= path_keys(path@).drop_first());
                            }
                            find_attribute_path_owned(nested.as_slice(), rest)
                        },
                        None => None,
                    },
                    None => None,
                },
                None => None,
            }
        },
    }
}

// ─── Writing ─────────────────────────────────────────────────────────

/// A string value holding `value`.
pub fn string_value(value: &str) -> (r: AnyValue)
    ensures
        is_text(Some(r), value@),
{
    AnyValue {
        string_value: Some(value.to_owned()),
        bool_value: None,
        int_value: None,
        double_value: None,
        array_value: None,
        kvlist_value: None,
        bytes_value: None,
    }
}

/// Drops every entry of `attrs` under `key`.
pub fn remove_key(attrs: &mut Vec<KeyValue>, key: &str)
    ensures
        final(attrs)@ == without_key(old(attrs)@, key@),
{
    let mut all: Vec<KeyValue> = Vec::new();
    core::mem::swap(attrs, &mut all);
    for kv in it: all
        invariant
            it.seq() == old(attrs)@,
            attrs@ == without_key(it.seq().take(it.index() as int), key@),
    {
        proof {
            let seen = it.seq().take(it.index() as int);
            assert(it.seq().take(it.index() + 1) =~= seen.push(kv));
            Seq::lemma_filter_push(seen, kv, not_under(key@));
        }
        if *kv.key.as_str() != *key {
            attrs.push(kv);
        }
    }
    proof {
        assert(old(attrs)@.take(old(attrs)@.len() as int) =~= old(attrs)@);
    }
}

/// Removes the attribute named by the first key of `path`, in all its
/// entries. Reports whether the list got shorter.
pub fn remove_attr(attrs: &mut Vec<KeyValue>, path: &[String]) -> (hit: bool)
    ensures
        path@.len() == 0 ==> *final(attrs) == *old(attrs),
        path@.len() > 0 ==> final(attrs)@ == without_key(old(attrs)@, path@[0]@),
        hit == (final(attrs)@.len() < old(attrs)@.len()),
        hit == (path@.len() > 0 && has_key(old(attrs)@, path@[0]@)),
{
    let key = match attr_path(path) {
        Some(k) => k,
        None => return false,
    };
    let len_before = attrs.len();
    remove_key(attrs, key);
    proof {
        lemma_without_key_len(old(attrs)@, key@);
    }
    attrs.len() < len_before
}

/// Sets the attribute named by the first key of `path` to the string
/// `value`. Reports `true` unless the path is empty.
pub fn set_attr(attrs: &mut Vec<KeyValue>, path: &[String], value: &str, upsert: bool) -> (ok: bool)
    ensures
        ok == (path@.len() > 0),
        path@.len() > 0 ==> attr_set(old(attrs)@, final(attrs)@, path@[0]@, value@, upsert),
        path@.len() == 0 || (!upsert && has_key(old(attrs)@, path@[0]@)) ==> *final(attrs) == *old(
            attrs,
        ),
{
    let key = match attr_path(path) {
        Some(k) => k,
        None => return false,
    };
    match position(attrs.as_slice(), key) {
        Some(i) => {
            if !upsert {
                return true;  // exists but not overwriting
            }
            attrs[i].value = Some(string_value(value));
            true
        },
        None => {
            attrs.push(KeyValue { key: key.to_owned(), value: Some(string_value(value)) });
            proof {
                assert(attrs@.drop_last() =~= old(attrs)@);
            }
            true
        },
    }
}

/// Overwrites the attribute named by the first key of `path` with the
/// string `replacement`, appending an entry where there was none. Reports
/// whether an entry was there before.
pub fn redact_attr(attrs: &mut Vec<KeyValue>, path: &[String], replacement: &str) -> (hit: bool)
    ensures
        hit == (path@.len() > 0 && has_key(old(attrs)@, path@[0]@)),
        path@.len() > 0 ==> attr_set(old(attrs)@, final(attrs)@, path@[0]@, replacement@, true),
        path@.len() == 0 ==> *final(attrs) == *old(attrs),
{
    let hit = match attr_path(path) {
        Some(key) => position(attrs.as_slice(), key).is_some(),
        None => false,
    };
    set_attr(attrs, path, replacement, true);
    hit
}

/// Renames the attribute named by the first key of `path` to `to`.
///
/// Reports `false` when the path is empty or names no entry. Reports `true`
/// without a change when `upsert` is unset and `to` is taken.
pub fn rename_attr(attrs: &mut Vec<KeyValue>, path: &[String], to: &str, upsert: bool) -> (ok:
    bool)
    ensures
        ok == (path@.len() > 0 && has_key(old(attrs)@, path@[0]@)),
        path@.len() > 0 ==> attr_renamed(old(attrs)@, final(attrs)@, path@[0]@, to@, upsert),
        !ok || (!upsert && has_key(old(attrs)@, to@)) ==> *final(attrs) == *old(attrs),
{
    let key = match attr_path(path) {
        Some(k) => k,
        None => return false,
    };
    let idx = match position(attrs.as_slice(), key) {
        Some(i) => i,
        None => return false,
    };
    if !upsert && position(attrs.as_slice(), to).is_some() {
        return true;  // source exists but target blocked
    }
    move_to_end(attrs, idx, to, upsert);
    proof {
        if !upsert {
            lemma_without_absent_key(old(attrs)@.remove(idx as int), to@);
        }
    }
    true
}

/// Moves the entry at `idx` to the end of `attrs` under the key `to`. With
/// `upsert`, the entries already under `to` are dropped first.
fn move_to_end(attrs: &mut Vec<KeyValue>, idx: usize, to: &str, upsert: bool)
    requires
        idx < old(attrs)@.len(),
    ensures
        final(attrs)@.len() > 0,
        final(attrs)@.drop_last() == if upsert {
            without_key(old(attrs)@.remove(idx as int), to@)
        } else {
            old(attrs)@.remove(idx as int)
        },
        final(attrs)@.last().key@ == to@,
        final(attrs)@.last().value == old(attrs)@[idx as int].value,
{
    let removed = attrs.remove(idx);
    // Remove existing target if upsert
    if upsert {
        remove_key(attrs, to);
    }
    let ghost kept = attrs@;
    let moved = KeyValue { key: to.to_owned(), value: removed.value };
    attrs.push(moved);
    assert(attrs@.drop_last() == kept);
}

// ─── Facts about the edits ───────────────────────────────────────────

/// Removing a key shortens the list exactly when the key occurs.
pub proof fn lemma_without_key_len(attrs: Seq<KeyValue>, key: Seq<char>)
    ensures
        without_key(attrs, key).len() <= attrs.len(),
        without_key(attrs, key).len() < attrs.len() <==> has_key(attrs, key),
        !has_key(attrs, key) ==> without_key(attrs, key) == attrs,
    decreases attrs.len(),
{
    if attrs.len() == 0 {
        assert(without_key(attrs, key) =~= attrs);
    } else {
        let front = attrs.drop_last();
        let last = attrs.last();
        lemma_without_key_len(front, key);
        assert(attrs =~= front.push(last));
        Seq::lemma_filter_push(front, last, not_under(key));
        if has_key(front, key) {
            let w = choose|i: int| 0 <= i < front.len() && (#[trigger] front[i]).key@ == key;
            assert(attrs[w].key@ == key);
        }
        if last.key@ == key {
            assert(attrs[attrs.len() - 1].key@ == key);
        }
        if has_key(attrs, key) {
            let w = choose|i: int| 0 <= i < attrs.len() && (#[trigger] attrs[i]).key@ == key;
            if w < front.len() {
                assert(front[w].key@ == key);
            }
        } else {
            assert(!has_key(front, key));
            assert(without_key(front, key) == front);
            assert(without_key(attrs, key) == front.push(last));
        }
    }
}

/// Removing a key that does not occur changes nothing.
pub proof fn lemma_without_absent_key(attrs: Seq<KeyValue>, key: Seq<char>)
    requires
        !has_key(attrs, key),
    ensures
        without_key(attrs, key) == attrs,
{
    lemma_without_key_len(attrs, key);
}

/// After a key is removed, no entry has it.
pub proof fn lemma_without_key_absent(attrs: Seq<KeyValue>, key: Seq<char>)
    ensures
        !has_key(without_key(attrs, key), key),
{
}

// ─── Laws of the edits ───────────────────────────────────────────────

/// A removed attribute is gone: no path that starts with its key resolves.
pub proof fn law_removed_is_absent(attrs: Seq<KeyValue>, path: Seq<Seq<char>>)
    requires
        path.len() > 0,
    ensures
        resolve(without_key(attrs, path[0]), path) is None,
{
}

/// An attribute that was set with overwriting reads as the value that was
/// set, unless that value is empty.
pub proof fn law_set_reads_back(
    before: Seq<KeyValue>,
    after: Seq<KeyValue>,
    key: Seq<char>,
    value: Seq<char>,
    upsert: bool,
)
    requires
        attr_set(before, after, key, value, upsert),
        upsert || !has_key(before, key),
    ensures
        has_key(after, key),
        resolve(after, seq![key]) == present(value),
{
    lemma_first_match_iff_has_key(before, key);
    match first_match(before, key) {
        Some(i) => {
            assert(is_first_match(after, key, i));
        },
        None => {
            let last = after.len() - 1;
            assert(is_first_match(after, key, last)) by {
                assert forall|j: int| 0 <= j < last implies (#[trigger] after[j]).key@ != key by {
                    assert(after[j] == after.drop_last()[j]);
                }
            }
        },
    }
}

/// An attribute that was set without overwriting, where an entry existed,
/// reads as it did before.
pub proof fn law_set_keeps(
    before: Seq<KeyValue>,
    after: Seq<KeyValue>,
    key: Seq<char>,
    value: Seq<char>,
    path: Seq<Seq<char>>,
)
    requires
        attr_set(before, after, key, value, false),
        has_key(before, key),
    ensures
        after == before,
        resolve(after, path) == resolve(before, path),
{
    lemma_first_match_iff_has_key(before, key);
}

/// After a rename that went through, the new key reads as the old key did.
pub proof fn law_rename_moves_value(
    before: Seq<KeyValue>,
    after: Seq<KeyValue>,
    from: Seq<char>,
    to: Seq<char>,
    upsert: bool,
)
    requires
        attr_renamed(before, after, from, to, upsert),
        has_key(before, from),
        upsert || !has_key(before, to),
    ensures
        resolve(after, seq![to]) == resolve(before, seq![from]),
{
    lemma_first_match_iff_has_key(before, from);
    let last = after.len() - 1;
    assert(is_first_match(after, to, last)) by {
        assert forall|j: int| 0 <= j < last implies (#[trigger] after[j]).key@ != to by {
            assert(after[j] == after.drop_last()[j]);
        }
    }
}

/// A rename that is blocked, because the new key is taken and overwriting is
/// off, changes nothing: both keys read as before.
pub proof fn law_rename_blocked(
    before: Seq<KeyValue>,
    after: Seq<KeyValue>,
    from: Seq<char>,
    to: Seq<char>,
)
    requires
        attr_renamed(before, after, from, to, false),
        has_key(before, to),
    ensures
        after == before,
{
}

} // verus!
