//! What holds of every merge into a tracestate.

use vstd::prelude::*;
use crate::tracestate::{
    entries, is_ot, is_space, join, kept_of, kept_parts, merged, non_empty, not_ot, other_key,
    split, sub_key, trim, trim_end, trim_start, trimmed,
};

verus! {

// ─── Vocabulary ──────────────────────────────────────────────────────

/// `d` does not occur in `s`.
pub open spec fn free_of(s: Seq<char>, d: char) -> bool {
    forall|j: int| 0 <= j < s.len() ==> s[j] != d
}

/// `s` neither starts nor ends with white space.
pub open spec fn is_trimmed(s: Seq<char>) -> bool {
    s.len() == 0 || (!is_space(s.first()) && !is_space(s.last()))
}

/// `s` can stand as an entry of a `d`-separated list and be read back as
/// itself: it is not empty, has no white space around it, and holds no `d`.
pub open spec fn is_entry(s: Seq<char>, d: char) -> bool {
    s.len() > 0 && is_trimmed(s) && free_of(s, d)
}

/// Every element of `parts` is an entry of a `d`-separated list.
pub open spec fn all_entries(parts: Seq<Seq<char>>, d: char) -> bool {
    forall|i: int| 0 <= i < parts.len() ==> is_entry(#[trigger] parts[i], d)
}

/// No element of `parts` holds `d`.
pub open spec fn all_free_of(parts: Seq<Seq<char>>, d: char) -> bool {
    forall|i: int| 0 <= i < parts.len() ==> free_of(#[trigger] parts[i], d)
}

/// The entries of the vendors other than `ot`.
pub open spec fn other_vendors(tracestate: Seq<char>) -> Seq<Seq<char>> {
    entries(tracestate, ',').filter(not_ot())
}

// ─── Trimming ────────────────────────────────────────────────────────

/// Trimming at the start leaves a tail of `s` that does not start with white
/// space.
pub proof fn lemma_trim_start_shape(s: Seq<char>)
    ensures
        trim_start(s).len() <= s.len(),
        trim_start(s) == s.skip(s.len() - trim_start(s).len()),
        trim_start(s).len() > 0 ==> !is_space(trim_start(s).first()),
    decreases s.len(),
{
    if s.len() > 0 && is_space(s.first()) {
        let rest = s.drop_first();
        lemma_trim_start_shape(rest);
    }
}

/// Trimming at the end leaves a head of `s` that does not end with white
/// space.
pub proof fn lemma_trim_end_shape(s: Seq<char>)
    ensures
        trim_end(s).len() <= s.len(),
        trim_end(s) == s.take(trim_end(s).len() as int),
        trim_end(s).len() > 0 ==> !is_space(trim_end(s).last()),
    decreases s.len(),
{
    if s.len() > 0 && is_space(s.last()) {
        let rest = s.drop_last();
        lemma_trim_end_shape(rest);
    }
}

/// Trimming yields a trimmed piece of `s`, which holds no character that `s`
/// does not hold.
pub proof fn lemma_trim_shape(s: Seq<char>, d: char)
    ensures
        is_trimmed(trim(s)),
        free_of(s, d) ==> free_of(trim(s), d),
{
    let t = trim_start(s);
    lemma_trim_start_shape(s);
    lemma_trim_end_shape(t);
    let r = trim_end(t);
    if r.len() > 0 {
        assert(r.first() == t.first());
    }
    if free_of(s, d) {
        assert forall|j: int| 0 <= j < r.len() implies r[j] != d by {
            assert(r[j] == t[j]);
            assert(t[j] == s[j + (s.len() - t.len())]);
        }
    }
}

/// Trimming at the end does not reach past a character that is not white
/// space.
pub proof fn lemma_trim_end_keeps(s: Seq<char>, k: int)
    requires
        0 <= k < s.len(),
        !is_space(s[k]),
    ensures
        k < trim_end(s).len() <= s.len(),
        trim_end(s) == s.take(trim_end(s).len() as int),
    decreases s.len(),
{
    if s.len() > 0 && is_space(s.last()) {
        lemma_trim_end_keeps(s.drop_last(), k);
    }
}

// ─── Splitting and joining ───────────────────────────────────────────

/// No piece of a split holds the delimiter.
pub proof fn lemma_split_pieces_free(s: Seq<char>, d: char)
    ensures
        split(s, d).len() >= 1,
        all_free_of(split(s, d), d),
    decreases s.len(),
{
    if s.len() > 0 {
        lemma_split_pieces_free(s.drop_last(), d);
    }
}

/// A string without the delimiter is its own single piece.
pub proof fn lemma_split_free(s: Seq<char>, d: char)
    requires
        free_of(s, d),
    ensures
        split(s, d) == seq![s],
    decreases s.len(),
{
    if s.len() == 0 {
        assert(s =~= Seq::<char>::empty());
    } else {
        lemma_split_free(s.drop_last(), d);
        assert(s.drop_last().push(s.last()) =~= s);
    }
}

/// Appending a delimiter and a string without one adds that string as a
/// piece.
pub proof fn lemma_split_append(x: Seq<char>, y: Seq<char>, d: char)
    requires
        free_of(y, d),
    ensures
        split(x.push(d) + y, d) == split(x, d).push(y),
    decreases y.len(),
{
    let s = x.push(d) + y;
    if y.len() == 0 {
        assert(s.drop_last() =~= x);
        assert(y =~= Seq::<char>::empty());
    } else {
        let y0 = y.drop_last();
        lemma_split_append(x, y0, d);
        assert(s.drop_last() =~= x.push(d) + y0);
        assert(y0.push(y.last()) =~= y);
    }
}

/// Splitting a join gives the parts back, if none of them holds the
/// delimiter.
pub proof fn lemma_split_join(parts: Seq<Seq<char>>, d: char)
    requires
        parts.len() >= 1,
        all_free_of(parts, d),
    ensures
        split(join(parts, d), d) == parts,
    decreases parts.len(),
{
    if parts.len() == 1 {
        lemma_split_free(parts[0], d);
    } else {
        let front = parts.drop_last();
        lemma_split_join(front, d);
        lemma_split_append(join(front, d), parts.last(), d);
    }
}

/// A join starts with its first part.
pub proof fn lemma_join_cons(x: Seq<char>, rest: Seq<Seq<char>>, d: char)
    ensures
        join(seq![x] + rest, d) == if rest.len() == 0 {
            x
        } else {
            x.push(d) + join(rest, d)
        },
    decreases rest.len(),
{
    let all = seq![x] + rest;
    if rest.len() > 0 {
        let front = rest.drop_last();
        lemma_join_cons(x, front, d);
        assert(all.drop_last() =~= seq![x] + front);
    }
}

/// A join holds a character only if a part holds it or it is the delimiter.
pub proof fn lemma_join_free(parts: Seq<Seq<char>>, d: char, c: char)
    requires
        all_free_of(parts, c),
        d != c,
    ensures
        free_of(join(parts, d), c),
    decreases parts.len(),
{
    if parts.len() >= 2 {
        let front = parts.drop_last();
        lemma_join_free(front, d, c);
    }
}

// ─── Filters ─────────────────────────────────────────────────────────

/// A filter keeps a sequence whose elements all pass.
pub proof fn lemma_filter_all<A>(s: Seq<A>, p: spec_fn(A) -> bool)
    requires
        forall|i: int| 0 <= i < s.len() ==> p(#[trigger] s[i]),
    ensures
        s.filter(p) == s,
    decreases s.len(),
{
    if s.len() > 0 {
        let front = s.drop_last();
        lemma_filter_all(front, p);
        assert(front.push(s.last()) =~= s);
        Seq::lemma_filter_push(front, s.last(), p);
    }
}

/// A filter empties a sequence none of whose elements passes.
pub proof fn lemma_filter_none<A>(s: Seq<A>, p: spec_fn(A) -> bool)
    requires
        forall|i: int| 0 <= i < s.len() ==> !p(#[trigger] s[i]),
    ensures
        s.filter(p) == Seq::<A>::empty(),
    decreases s.len(),
{
    if s.len() > 0 {
        let front = s.drop_last();
        lemma_filter_none(front, p);
        assert(front.push(s.last()) =~= s);
        Seq::lemma_filter_push(front, s.last(), p);
    }
}

/// What a filter keeps passes the filter and comes from the sequence.
pub proof fn lemma_filter_members<A>(s: Seq<A>, p: spec_fn(A) -> bool)
    ensures
        forall|i: int|
            0 <= i < s.filter(p).len() ==> p(#[trigger] s.filter(p)[i]) && s.contains(s.filter(p)[i]),
{
    let f = s.filter(p);
    assert forall|i: int| 0 <= i < f.len() implies p(#[trigger] f[i]) && s.contains(f[i]) by {
        s.lemma_filter_contains_rev(p, f[i]);
    }
}

// ─── Entries ─────────────────────────────────────────────────────────

/// The pieces of a split hold no character that the whole does not hold.
pub proof fn lemma_split_pieces_sub(s: Seq<char>, d: char, c: char)
    requires
        free_of(s, c),
    ensures
        all_free_of(split(s, d), c),
    decreases s.len(),
{
    if s.len() > 0 {
        let rest = s.drop_last();
        lemma_split_pieces_sub(rest, d, c);
    }
}

/// Every entry of a list is trimmed and not empty, and is the trimming of a
/// piece of the list.
pub proof fn lemma_entries_from_pieces(s: Seq<char>, d: char)
    ensures
        forall|i: int|
            0 <= i < entries(s, d).len() ==> {
                &&& (#[trigger] entries(s, d)[i]).len() > 0
                &&& is_trimmed(entries(s, d)[i])
                &&& exists|j: int|
                    0 <= j < split(s, d).len() && entries(s, d)[i] == trim(#[trigger] split(s, d)[j])
            },
{
    let pieces = split(s, d);
    let mapped = pieces.map_values(trimmed());
    let es = entries(s, d);
    lemma_filter_members(mapped, non_empty());
    assert forall|i: int| 0 <= i < es.len() implies {
        &&& (#[trigger] es[i]).len() > 0
        &&& is_trimmed(es[i])
        &&& exists|j: int| 0 <= j < pieces.len() && es[i] == trim(#[trigger] pieces[j])
    } by {
        let j = choose|j: int| 0 <= j < mapped.len() && mapped[j] == es[i];
        lemma_trim_shape(pieces[j], d);
    }
}

/// Every entry of a `d`-separated list can stand as an entry of such a list.
pub proof fn lemma_entries_shape(s: Seq<char>, d: char)
    ensures
        all_entries(entries(s, d), d),
{
    let es = entries(s, d);
    lemma_entries_from_pieces(s, d);
    lemma_split_pieces_free(s, d);
    assert forall|i: int| 0 <= i < es.len() implies is_entry(#[trigger] es[i], d) by {
        let j = choose|j: int| 0 <= j < split(s, d).len() && es[i] == trim(#[trigger] split(s, d)[j]);
        lemma_trim_shape(split(s, d)[j], d);
    }
}

/// The entries of a list hold no character that the list does not hold.
pub proof fn lemma_entries_sub(s: Seq<char>, d: char, c: char)
    requires
        free_of(s, c),
    ensures
        all_free_of(entries(s, d), c),
{
    let es = entries(s, d);
    lemma_entries_from_pieces(s, d);
    lemma_split_pieces_sub(s, d, c);
    assert forall|i: int| 0 <= i < es.len() implies free_of(#[trigger] es[i], c) by {
        let j = choose|j: int| 0 <= j < split(s, d).len() && es[i] == trim(#[trigger] split(s, d)[j]);
        lemma_trim_shape(split(s, d)[j], c);
    }
}

/// The entries of a join of entries are those entries.
pub proof fn lemma_entries_join(parts: Seq<Seq<char>>, d: char)
    requires
        all_entries(parts, d),
    ensures
        entries(join(parts, d), d) == parts,
{
    if parts.len() == 0 {
        let mapped = split(join(parts, d), d).map_values(trimmed());
        lemma_filter_none(mapped, non_empty());
    } else {
        lemma_split_join(parts, d);
        assert(parts.map_values(trimmed()) =~= parts);
        lemma_filter_all(parts, non_empty());
    }
}

// ─── The sub-entries that a merge keeps ──────────────────────────────

/// What a merge keeps of one vendor entry can stand as sub-entries, has
/// another key than the one merged, and holds no comma if the entry holds
/// none.
pub proof fn lemma_kept_of_shape(vendor: Seq<char>, key: Seq<char>)
    ensures
        all_entries(kept_of(vendor, key), ';'),
        free_of(vendor, ',') ==> all_free_of(kept_of(vendor, key), ','),
        forall|i: int|
            0 <= i < kept_of(vendor, key).len() ==> sub_key(#[trigger] kept_of(vendor, key)[i]) != key,
{
    if is_ot(vendor) {
        let body = vendor.skip(3);
        let es = entries(body, ';');
        lemma_entries_shape(body, ';');
        lemma_filter_members(es, other_key(key));
        if free_of(vendor, ',') {
            lemma_entries_sub(body, ';', ',');
        }
    }
}

/// What a merge keeps of a list of vendor entries can stand as sub-entries,
/// has another key than the one merged, and holds no comma if the entries
/// hold none.
pub proof fn lemma_kept_parts_shape(vendors: Seq<Seq<char>>, key: Seq<char>)
    ensures
        all_entries(kept_parts(vendors, key), ';'),
        all_free_of(vendors, ',') ==> all_free_of(kept_parts(vendors, key), ','),
        forall|i: int|
            0 <= i < kept_parts(vendors, key).len() ==> sub_key(
                #[trigger] kept_parts(vendors, key)[i],
            ) != key,
    decreases vendors.len(),
{
    if vendors.len() > 0 {
        let front = vendors.drop_last();
        lemma_kept_parts_shape(front, key);
        lemma_kept_of_shape(vendors.last(), key);
        let all = kept_parts(vendors, key);
        if all_free_of(vendors, ',') {
            assert forall|i: int| 0 <= i < all.len() implies free_of(#[trigger] all[i], ',') by {}
        }
    }
}

/// Vendors other than `ot` contribute no sub-entries.
pub proof fn lemma_kept_parts_of_others(vendors: Seq<Seq<char>>, key: Seq<char>)
    requires
        forall|i: int| 0 <= i < vendors.len() ==> !is_ot(#[trigger] vendors[i]),
    ensures
        kept_parts(vendors, key) == Seq::<Seq<char>>::empty(),
    decreases vendors.len(),
{
    if vendors.len() > 0 {
        let front = vendors.drop_last();
        lemma_kept_parts_of_others(front, key);
    }
}

/// The sub-entries kept of a list that starts with `first` are those kept of
/// `first`, then those kept of the rest.
pub proof fn lemma_kept_parts_cons(first: Seq<char>, rest: Seq<Seq<char>>, key: Seq<char>)
    ensures
        kept_parts(seq![first] + rest, key) == kept_of(first, key) + kept_parts(rest, key),
    decreases rest.len(),
{
    let all = seq![first] + rest;
    if rest.len() == 0 {
        let none = Seq::<Seq<char>>::empty();
        assert(all.drop_last() =~= none);
        assert(rest =~= none);
    } else {
        let front = rest.drop_last();
        lemma_kept_parts_cons(first, front, key);
        assert(all.drop_last() =~= seq![first] + front);
    }
}

// ─── Reading back ────────────────────────────────────────────────────

/// The entries among `pieces`: each trimmed, the empty ones left out.
pub open spec fn entries_among(pieces: Seq<Seq<char>>) -> Seq<Seq<char>> {
    pieces.map_values(trimmed()).filter(non_empty())
}

/// The tracestate that holds the sub-entry `sub_kv` and nothing else. It is
/// what a merge into the empty tracestate yields.
pub open spec fn ot_alone(sub_kv: Seq<char>) -> Seq<char> {
    seq!['o', 't', '='] + sub_kv
}

/// The sub-entries with another key that are read back from `sub_kv` itself.
/// A sub-entry that holds no delimiter has none.
pub open spec fn stray_parts(sub_kv: Seq<char>) -> Seq<Seq<char>> {
    kept_parts(entries(ot_alone(sub_kv), ','), sub_key(sub_kv))
}

/// The entries of other vendors that are read back from `sub_kv` itself. A
/// sub-entry that holds no comma has none.
pub open spec fn stray_vendors(sub_kv: Seq<char>) -> Seq<Seq<char>> {
    other_vendors(ot_alone(sub_kv))
}

/// The entries among a concatenation are those among its halves.
pub proof fn lemma_entries_among_concat(xs: Seq<Seq<char>>, ys: Seq<Seq<char>>)
    ensures
        entries_among(xs + ys) == entries_among(xs) + entries_among(ys),
{
    assert((xs + ys).map_values(trimmed()) =~= xs.map_values(trimmed()) + ys.map_values(
        trimmed(),
    ));
}

/// Entries that can stand as entries are read back as they are.
pub proof fn lemma_entries_among_entries(parts: Seq<Seq<char>>, d: char)
    requires
        all_entries(parts, d),
    ensures
        entries_among(parts) == parts,
{
    assert(parts.map_values(trimmed()) =~= parts);
    lemma_filter_all(parts, non_empty());
}

/// Splitting after a delimiter continues the split before it.
pub proof fn lemma_split_concat(x: Seq<char>, y: Seq<char>, d: char)
    ensures
        split(x.push(d) + y, d) == split(x, d) + split(y, d),
    decreases y.len(),
{
    let s = x.push(d) + y;
    if y.len() == 0 {
        assert(s.drop_last() =~= x);
    } else {
        let y0 = y.drop_last();
        lemma_split_concat(x, y0, d);
        assert(s.drop_last() =~= x.push(d) + y0);
    }
}

/// A prefix without the delimiter joins the first piece.
pub proof fn lemma_split_prefix(c: Seq<char>, y: Seq<char>, d: char)
    requires
        free_of(c, d),
    ensures
        split(c + y, d) == seq![c + split(y, d).first()] + split(y, d).drop_first(),
    decreases y.len(),
{
    if y.len() == 0 {
        lemma_split_free(c, d);
    } else {
        let y0 = y.drop_last();
        lemma_split_prefix(c, y0, d);
        assert((c + y).drop_last() =~= c + y0);
    }
}

/// A join ends with its last part, after the join of the parts before and a
/// delimiter.
pub proof fn lemma_join_snoc(parts: Seq<Seq<char>>, last: Seq<char>, d: char)
    ensures
        join(parts.push(last), d) == if parts.len() == 0 {
            last
        } else {
            join(parts, d).push(d) + last
        },
{
    assert(parts.push(last).drop_last() =~= parts);
}

/// Trimming at the end stops where a string that does not end with white
/// space ends.
pub proof fn lemma_trim_end_append(c: Seq<char>, y: Seq<char>)
    requires
        c.len() > 0,
        !is_space(c.last()),
    ensures
        trim_end(c + y) == c + trim_end(y),
    decreases y.len(),
{
    if y.len() > 0 {
        assert((c + y).drop_last() =~= c + y.drop_last());
        if is_space(y.last()) {
            lemma_trim_end_append(c, y.drop_last());
        }
    }
}

/// The sub-entries kept of a concatenation are those kept of its halves.
pub proof fn lemma_kept_parts_concat(xs: Seq<Seq<char>>, ys: Seq<Seq<char>>, key: Seq<char>)
    ensures
        kept_parts(xs + ys, key) == kept_parts(xs, key) + kept_parts(ys, key),
    decreases ys.len(),
{
    if ys.len() > 0 {
        lemma_kept_parts_concat(xs, ys.drop_last(), key);
        assert((xs + ys).drop_last() =~= xs + ys.drop_last());
    }
}

// ─── The shape of a merged tracestate ────────────────────────────────

/// What stands in the `ot` entry before the merged sub-entry: the
/// sub-entries that were kept, each followed by a semicolon.
pub open spec fn kept_prefix(parts: Seq<Seq<char>>) -> Seq<char> {
    if parts.len() == 0 {
        Seq::empty()
    } else {
        join(parts, ';').push(';')
    }
}

/// The start of a merged tracestate, up to the merged sub-entry.
pub open spec fn merged_start(tracestate: Seq<char>, sub_kv: Seq<char>) -> Seq<char> {
    seq!['o', 't', '='] + kept_prefix(kept_parts(entries(tracestate, ','), sub_key(sub_kv)))
}

/// The entries of the other vendors can stand as entries, and none of them
/// is the `ot` vendor's.
pub proof fn lemma_other_vendors_shape(tracestate: Seq<char>)
    ensures
        all_entries(other_vendors(tracestate), ','),
        forall|i: int|
            0 <= i < other_vendors(tracestate).len() ==> !is_ot(
                #[trigger] other_vendors(tracestate)[i],
            ),
{
    let vendors = entries(tracestate, ',');
    lemma_entries_shape(tracestate, ',');
    lemma_filter_members(vendors, not_ot());
}

/// The start of a merged tracestate holds no comma, begins with `ot=` and
/// does not end with white space.
pub proof fn lemma_merged_start_shape(tracestate: Seq<char>, sub_kv: Seq<char>)
    ensures
        ({
            let start = merged_start(tracestate, sub_kv);
            &&& free_of(start, ',')
            &&& start.len() >= 3
            &&& start[0] == 'o' && start[1] == 't' && start[2] == '='
            &&& !is_space(start.last())
        }),
{
    let vendors = entries(tracestate, ',');
    let parts = kept_parts(vendors, sub_key(sub_kv));
    let prefix = kept_prefix(parts);
    let start = merged_start(tracestate, sub_kv);
    lemma_entries_shape(tracestate, ',');
    assert(all_free_of(vendors, ',')) by {
        assert forall|i: int| 0 <= i < vendors.len() implies free_of(#[trigger] vendors[i], ',') by {
            assert(is_entry(vendors[i], ','));
        }
    }
    lemma_kept_parts_shape(vendors, sub_key(sub_kv));
    lemma_join_free(parts, ';', ',');
    assert(free_of(prefix, ','));
    assert(free_of(start, ',')) by {
        assert forall|j: int| 0 <= j < start.len() implies start[j] != ',' by {
            if j >= 3 {
                assert(start[j] == prefix[j - 3]);
            }
        }
    }
    if parts.len() > 0 {
        assert(start.last() == ';');
    } else {
        assert(start =~= seq!['o', 't', '=']);
    }
}

/// A merged tracestate is its start, the merged sub-entry, and the entries of
/// the other vendors, each after a comma.
pub proof fn lemma_merged_parts(tracestate: Seq<char>, sub_kv: Seq<char>)
    ensures
        merged(tracestate, sub_kv) == merged_start(tracestate, sub_kv) + sub_kv + if other_vendors(
            tracestate,
        ).len() > 0 {
            seq![','] + join(other_vendors(tracestate), ',')
        } else {
            Seq::empty()
        },
{
    let parts = kept_parts(entries(tracestate, ','), sub_key(sub_kv));
    lemma_join_snoc(parts, sub_kv, ';');
}

/// The pieces of a merged tracestate: the start with the first piece of the
/// sub-entry, the further pieces of the sub-entry, and the entries of the
/// other vendors.
pub proof fn lemma_merged_pieces(tracestate: Seq<char>, sub_kv: Seq<char>)
    ensures
        split(merged(tracestate, sub_kv), ',') == seq![
            merged_start(tracestate, sub_kv) + split(sub_kv, ',').first(),
        ] + split(sub_kv, ',').drop_first() + other_vendors(tracestate),
{
    let start = merged_start(tracestate, sub_kv);
    let others = other_vendors(tracestate);
    lemma_merged_parts(tracestate, sub_kv);
    lemma_merged_start_shape(tracestate, sub_kv);
    lemma_split_prefix(start, sub_kv, ',');
    if others.len() > 0 {
        lemma_other_vendors_shape(tracestate);
        lemma_split_join(others, ',');
        lemma_split_concat(start + sub_kv, join(others, ','), ',');
        assert(merged(tracestate, sub_kv) =~= (start + sub_kv).push(',') + join(others, ','));
    }
}

/// A vendor entry that begins with `ot=` and goes on after something that
/// is not white space is trimmed at its end only, and stays an `ot` entry.
pub proof fn lemma_trim_ot(start: Seq<char>, rest: Seq<char>)
    requires
        start.len() >= 3,
        start[0] == 'o' && start[1] == 't' && start[2] == '=',
        !is_space(start.last()),
    ensures
        trim(start + rest) == start + trim_end(rest),
        is_ot(trim(start + rest)),
        trim(start + rest).skip(3) == start.skip(3) + trim_end(rest),
{
    let whole = start + rest;
    assert(whole.first() == 'o');
    assert(trim_start(whole) == whole);
    lemma_trim_end_append(start, rest);
    let t = start + trim_end(rest);
    assert(t[0] == 'o' && t[1] == 't' && t[2] == '=');
    assert(t.skip(3) =~= start.skip(3) + trim_end(rest));
}

/// The entries that are read back from a merged tracestate, and from the
/// merged sub-entry alone: the `ot` entry, what else the sub-entry holds
/// after a comma, and the entries of the other vendors.
pub proof fn lemma_merged_entries(tracestate: Seq<char>, sub_kv: Seq<char>)
    ensures
        ({
            let pieces = split(sub_kv, ',');
            let first = trim_end(pieces.first());
            let more = entries_among(pieces.drop_first());
            &&& entries(merged(tracestate, sub_kv), ',') == seq![
                merged_start(tracestate, sub_kv) + first,
            ] + more + other_vendors(tracestate)
            &&& entries(ot_alone(sub_kv), ',') == seq![seq!['o', 't', '='] + first] + more
        }),
{
    let ot = seq!['o', 't', '='];
    let start = merged_start(tracestate, sub_kv);
    let others = other_vendors(tracestate);
    let pieces = split(sub_kv, ',');
    let first = trim_end(pieces.first());
    lemma_merged_pieces(tracestate, sub_kv);
    lemma_merged_start_shape(tracestate, sub_kv);
    lemma_other_vendors_shape(tracestate);
    // The merged tracestate.
    lemma_trim_ot(start, pieces.first());
    assert(entries_among(seq![start + pieces.first()]) == seq![start + first]) by {
        let one = seq![start + pieces.first()];
        assert(one.map_values(trimmed()) =~= seq![start + first]);
        lemma_filter_all(seq![start + first], non_empty());
    }
    lemma_entries_among_entries(others, ',');
    lemma_entries_among_concat(seq![start + pieces.first()], pieces.drop_first());
    lemma_entries_among_concat(seq![start + pieces.first()] + pieces.drop_first(), others);
    // The sub-entry alone.
    assert(free_of(ot, ','));
    lemma_split_prefix(ot, sub_kv, ',');
    lemma_trim_ot(ot, pieces.first());
    assert(entries_among(seq![ot + pieces.first()]) == seq![ot + first]) by {
        let one = seq![ot + pieces.first()];
        assert(one.map_values(trimmed()) =~= seq![ot + first]);
        lemma_filter_all(seq![ot + first], non_empty());
    }
    lemma_entries_among_concat(seq![ot + pieces.first()], pieces.drop_first());
}

/// Of the `ot` entry of a merged tracestate, a further merge keeps the
/// sub-entries that the first merge kept, and what it would keep of the
/// merged sub-entry alone.
pub proof fn lemma_kept_of_merged(tracestate: Seq<char>, sub_kv: Seq<char>, tail: Seq<char>)
    ensures
        kept_of(merged_start(tracestate, sub_kv) + tail, sub_key(sub_kv)) == kept_parts(
            entries(tracestate, ','),
            sub_key(sub_kv),
        ) + kept_of(seq!['o', 't', '='] + tail, sub_key(sub_kv)),
{
    let ot = seq!['o', 't', '='];
    let key = sub_key(sub_kv);
    let parts = kept_parts(entries(tracestate, ','), key);
    let start = merged_start(tracestate, sub_kv);
    let keep = other_key(key);
    lemma_kept_parts_shape(entries(tracestate, ','), key);
    assert((ot + tail).skip(3) =~= tail);
    assert((start + tail).skip(3) =~= kept_prefix(parts) + tail);
    lemma_filter_all(parts, keep);
    if parts.len() > 0 {
        lemma_split_join(parts, ';');
        lemma_split_concat(join(parts, ';'), tail, ';');
        lemma_entries_among_concat(parts, split(tail, ';'));
        lemma_entries_among_entries(parts, ';');
    }
}

// ─── Laws ────────────────────────────────────────────────────────────

/// What is read back from a merged tracestate. The sub-entries under other
/// keys are those that the merge kept, then those that the merged sub-entry
/// holds itself. The entries of other vendors are those that the merged
/// sub-entry holds itself, then those of the tracestate before.
pub proof fn law_merge_reads_back(tracestate: Seq<char>, sub_kv: Seq<char>)
    ensures
        kept_parts(entries(merged(tracestate, sub_kv), ','), sub_key(sub_kv)) == kept_parts(
            entries(tracestate, ','),
            sub_key(sub_kv),
        ) + stray_parts(sub_kv),
        other_vendors(merged(tracestate, sub_kv)) == stray_vendors(sub_kv) + other_vendors(
            tracestate,
        ),
{
    let ot = seq!['o', 't', '='];
    let key = sub_key(sub_kv);
    let start = merged_start(tracestate, sub_kv);
    let others = other_vendors(tracestate);
    let pieces = split(sub_kv, ',');
    let first = trim_end(pieces.first());
    let more = entries_among(pieces.drop_first());
    lemma_merged_entries(tracestate, sub_kv);
    lemma_kept_of_merged(tracestate, sub_kv, first);
    // Sub-entries.
    lemma_kept_parts_concat(seq![start + first] + more, others, key);
    lemma_kept_parts_cons(start + first, more, key);
    lemma_kept_parts_cons(ot + first, more, key);
    lemma_kept_parts_of_others(others, key);
    // Other vendors.
    lemma_filter_none(seq![start + first], not_ot());
    lemma_filter_none(seq![ot + first], not_ot());
    lemma_filter_all(others, not_ot());
}

/// A sub-entry without a comma holds no entry of another vendor.
pub proof fn law_no_comma_no_stray_vendors(sub_kv: Seq<char>)
    requires
        free_of(sub_kv, ','),
    ensures
        stray_vendors(sub_kv) == Seq::<Seq<char>>::empty(),
{
    let ot = seq!['o', 't', '='];
    lemma_merged_entries(Seq::empty(), sub_kv);
    lemma_split_free(sub_kv, ',');
    let only = seq![ot + trim_end(sub_kv)];
    lemma_filter_none(only, not_ot());
}

/// A sub-entry that can stand as one, and holds no comma, holds nothing but
/// itself.
pub proof fn law_entry_has_no_strays(sub_kv: Seq<char>)
    requires
        is_entry(sub_kv, ';'),
        free_of(sub_kv, ','),
    ensures
        stray_parts(sub_kv) == Seq::<Seq<char>>::empty(),
        stray_vendors(sub_kv) == Seq::<Seq<char>>::empty(),
{
    let ot = seq!['o', 't', '='];
    let key = sub_key(sub_kv);
    let none = Seq::<Seq<char>>::empty();
    law_no_comma_no_stray_vendors(sub_kv);
    lemma_merged_entries(Seq::empty(), sub_kv);
    lemma_split_free(sub_kv, ',');
    lemma_kept_parts_cons(ot + sub_kv, none, key);
    // Of the entry `ot=<sub_kv>` nothing is kept: its one sub-entry has the key.
    assert((ot + sub_kv).skip(3) =~= sub_kv);
    lemma_entries_join(seq![sub_kv], ';');
    Seq::lemma_filter_push(none, sub_kv, other_key(key));
}

/// A merge leaves the entries of the other vendors as they were, in their
/// order: what is read back from the merged tracestate, the `ot` entry
/// aside, is what was read from the tracestate before. This holds of every
/// sub-entry that does not itself hold an entry of another vendor, as none
/// without a comma does.
pub proof fn law_merge_keeps_other_vendors(tracestate: Seq<char>, sub_kv: Seq<char>)
    requires
        stray_vendors(sub_kv) == Seq::<Seq<char>>::empty(),
    ensures
        other_vendors(merged(tracestate, sub_kv)) == other_vendors(tracestate),
{
    law_merge_reads_back(tracestate, sub_kv);
}

/// Merging a sub-entry replaces an earlier one with the same key: merging
/// `first` and then `second` gives what merging `second` alone gives, so the
/// key occurs once and with the later value. This holds of every `first`
/// that holds nothing but itself, as a sub-entry without delimiters and
/// surrounding white space does.
pub proof fn law_merge_replaces(tracestate: Seq<char>, first: Seq<char>, second: Seq<char>)
    requires
        sub_key(first) == sub_key(second),
        stray_parts(first) == Seq::<Seq<char>>::empty(),
        stray_vendors(first) == Seq::<Seq<char>>::empty(),
    ensures
        merged(merged(tracestate, first), second) == merged(tracestate, second),
{
    law_merge_reads_back(tracestate, first);
}

/// After a well-formed sub-entry is merged, the `ot` entry comes first and
/// holds the sub-entries that were kept, then the merged one; and the merged
/// one is the only one with its key.
pub proof fn law_merge_one_per_key(tracestate: Seq<char>, sub_kv: Seq<char>)
    requires
        is_entry(sub_kv, ';'),
        free_of(sub_kv, ','),
    ensures
        ({
            let parts = kept_parts(entries(tracestate, ','), sub_key(sub_kv));
            let entry = entries(merged(tracestate, sub_kv), ',').first();
            &&& entry == merged_start(tracestate, sub_kv) + sub_kv
            &&& is_ot(entry)
            &&& entries(entry.skip(3), ';') == parts.push(sub_kv)
            &&& forall|i: int| 0 <= i < parts.len() ==> sub_key(#[trigger] parts[i]) != sub_key(sub_kv)
        }),
{
    let vendors = entries(tracestate, ',');
    let parts = kept_parts(vendors, sub_key(sub_kv));
    let start = merged_start(tracestate, sub_kv);
    lemma_merged_entries(tracestate, sub_kv);
    lemma_kept_parts_shape(vendors, sub_key(sub_kv));
    lemma_split_free(sub_kv, ',');
    lemma_join_snoc(parts, sub_kv, ';');
    assert((start + sub_kv).skip(3) =~= join(parts.push(sub_kv), ';'));
    lemma_entries_join(parts.push(sub_kv), ';');
}

} // verus!
