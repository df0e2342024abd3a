//! The W3C `tracestate` header, as far as the sampling threshold needs it.
//!
//! A tracestate is a comma-separated list of vendor entries. The entry of the
//! `ot` vendor holds sub-entries `key:value`, separated by semicolons. Merging a
//! sub-entry replaces any sub-entry with the same key and leaves every other
//! vendor's entry as it was. Nothing else of the header's syntax is checked.

use vstd::prelude::*;
use vstd::slice::{slice_subrange, slice_to_vec};
use crate::text::{chars_of, string_of};

verus! {

// ─── Model ───────────────────────────────────────────────────────────

/// `c` has the Unicode property `White_Space`.
pub open spec fn is_space(c: char) -> bool {
    let n = c as int;
    ||| 0x09 <= n <= 0x0d
    ||| n == 0x20
    ||| n == 0x85
    ||| n == 0xa0
    ||| n == 0x1680
    ||| 0x2000 <= n <= 0x200a
    ||| n == 0x2028
    ||| n == 0x2029
    ||| n == 0x202f
    ||| n == 0x205f
    ||| n == 0x3000
}

/// `s` without its leading white space.
pub open spec fn trim_start(s: Seq<char>) -> Seq<char>
    decreases s.len(),
{
    if s.len() > 0 && is_space(s.first()) {
        trim_start(s.drop_first())
    } else {
        s
    }
}

/// `s` without its trailing white space.
pub open spec fn trim_end(s: Seq<char>) -> Seq<char>
    decreases s.len(),
{
    if s.len() > 0 && is_space(s.last()) {
        trim_end(s.drop_last())
    } else {
        s
    }
}

/// `s` without its leading and trailing white space.
pub open spec fn trim(s: Seq<char>) -> Seq<char> {
    trim_end(trim_start(s))
}

/// The pieces of `s` between the occurrences of `d`. Read from the left, each
/// `d` opens a new piece and every other character extends the last one, so
/// there is always at least one piece.
pub open spec fn split(s: Seq<char>, d: char) -> Seq<Seq<char>>
    decreases s.len(),
{
    if s.len() == 0 {
        seq![Seq::empty()]
    } else {
        let front = split(s.drop_last(), d);
        if s.last() == d {
            front.push(Seq::empty())
        } else {
            front.drop_last().push(front.last().push(s.last()))
        }
    }
}

/// `parts` with `d` between each two neighbours.
pub open spec fn join(parts: Seq<Seq<char>>, d: char) -> Seq<char>
    decreases parts.len(),
{
    if parts.len() == 0 {
        Seq::empty()
    } else if parts.len() == 1 {
        parts[0]
    } else {
        join(parts.drop_last(), d).push(d) + parts.last()
    }
}

/// The trimming of a piece.
pub open spec fn trimmed() -> spec_fn(Seq<char>) -> Seq<char> {
    |p: Seq<char>| trim(p)
}

/// The test that a piece is not empty.
pub open spec fn non_empty() -> spec_fn(Seq<char>) -> bool {
    |p: Seq<char>| p.len() > 0
}

/// The entries of a `d`-separated list: its pieces, trimmed, the empty ones
/// left out.
pub open spec fn entries(s: Seq<char>, d: char) -> Seq<Seq<char>> {
    split(s, d).map_values(trimmed()).filter(non_empty())
}

/// `v` is an entry of the `ot` vendor: it starts with `ot=`.
pub open spec fn is_ot(v: Seq<char>) -> bool {
    v.len() >= 3 && v[0] == 'o' && v[1] == 't' && v[2] == '='
}

/// The test that a vendor entry is not the `ot` vendor's.
pub open spec fn not_ot() -> spec_fn(Seq<char>) -> bool {
    |v: Seq<char>| !is_ot(v)
}

/// The key of a sub-entry: what stands before its first `:`.
pub open spec fn sub_key(entry: Seq<char>) -> Seq<char> {
    split(entry, ':').first()
}

/// The test that a sub-entry has another key than `key`.
pub open spec fn other_key(key: Seq<char>) -> spec_fn(Seq<char>) -> bool {
    |p: Seq<char>| sub_key(p) != key
}

/// The sub-entries of one vendor entry that survive a merge under `key`: for
/// the `ot` vendor those with another key, for any other vendor none.
pub open spec fn kept_of(vendor: Seq<char>, key: Seq<char>) -> Seq<Seq<char>> {
    if is_ot(vendor) {
        entries(vendor.skip(3), ';').filter(other_key(key))
    } else {
        Seq::empty()
    }
}

/// The sub-entries of all `ot` entries among `vendors` that survive a merge
/// under `key`, in order.
pub open spec fn kept_parts(vendors: Seq<Seq<char>>, key: Seq<char>) -> Seq<Seq<char>>
    decreases vendors.len(),
{
    if vendors.len() == 0 {
        Seq::empty()
    } else {
        kept_parts(vendors.drop_last(), key) + kept_of(vendors.last(), key)
    }
}

/// The tracestate `tracestate` with the sub-entry `sub_kv` merged into the
/// `ot` vendor's entry.
///
/// The `ot` entry comes first. It holds the old sub-entries with another key,
/// then `sub_kv`. The entries of the other vendors follow in their order.
pub open spec fn merged(tracestate: Seq<char>, sub_kv: Seq<char>) -> Seq<char> {
    let vendors = entries(tracestate, ',');
    let parts = kept_parts(vendors, sub_key(sub_kv));
    let others = vendors.filter(not_ot());
    seq!['o', 't', '='] + join(parts.push(sub_kv), ';') + if others.len() > 0 {
        seq![','] + join(others, ',')
    } else {
        Seq::empty()
    }
}

/// The sub-entry that records the sampling threshold `value`.
pub open spec fn threshold_entry(value: Seq<char>) -> Seq<char> {
    seq!['t', 'h', ':'] + value
}

/// The views of a list of character vectors.
pub open spec fn views(v: Seq<Vec<char>>) -> Seq<Seq<char>> {
    Seq::new(v.len(), |i: int| v[i]@)
}

// ─── Lemmas for the executable code ──────────────────────────────────

/// Leading white space can be dropped one character at a time.
proof fn lemma_trim_start_skip(s: Seq<char>, n: int)
    requires
        0 <= n <= s.len(),
        forall|j: int| 0 <= j < n ==> is_space(s[j]),
    ensures
        trim_start(s) == trim_start(s.skip(n)),
    decreases n,
{
    if n == 0 {
        assert(s.skip(0) =~= s);
    } else {
        lemma_trim_start_skip(s.drop_first(), n - 1);
        assert(s.drop_first().skip(n - 1) =~= s.skip(n));
    }
}

/// Trailing white space can be dropped one character at a time.
proof fn lemma_trim_end_take(s: Seq<char>, n: int)
    requires
        0 <= n <= s.len(),
        forall|j: int| n <= j < s.len() ==> is_space(s[j]),
    ensures
        trim_end(s) == trim_end(s.take(n)),
    decreases s.len() - n,
{
    if n == s.len() {
        assert(s.take(n) =~= s);
    } else {
        lemma_trim_end_take(s.drop_last(), n);
        assert(s.drop_last().take(n) =~= s.take(n));
    }
}

/// The first piece ends at the first delimiter.
proof fn lemma_first_piece(s: Seq<char>, d: char, n: int)
    requires
        0 <= n <= s.len(),
        forall|j: int| 0 <= j < n ==> s[j] != d,
        n < s.len() ==> s[n] == d,
    ensures
        split(s, d).len() >= 1,
        split(s, d).first() == s.take(n),
        n == s.len() ==> split(s, d).len() == 1,
        n < s.len() ==> split(s, d).len() >= 2,
    decreases s.len(),
{
    if s.len() > 0 {
        let front = s.drop_last();
        if n == s.len() {
            lemma_first_piece(front, d, n - 1);
        } else if n == s.len() - 1 {
            lemma_first_piece(front, d, n);
        } else {
            lemma_first_piece(front, d, n);
        }
    }
}

// ─── Executable ──────────────────────────────────────────────────────

/// Whether `c` is white space.
pub fn is_space_char(c: char) -> (r: bool)
    ensures
        r == is_space(c),
{
    let n = c as u32;
    (0x09 <= n && n <= 0x0d) || n == 0x20 || n == 0x85 || n == 0xa0 || n == 0x1680 || (0x2000 <= n
        && n <= 0x200a) || n == 0x2028 || n == 0x2029 || n == 0x202f || n == 0x205f || n == 0x3000
}

/// `s` without its leading and trailing white space.
pub fn trim_chars<'a>(s: &'a [char]) -> (r: &'a [char])
    ensures
        r@ == trim(s@),
{
    let mut a: usize = 0;
    while a < s.len() && is_space_char(s[a])
        invariant
            a <= s.len(),
            forall|j: int| 0 <= j < a ==> is_space(s@[j]),
        decreases s.len() - a,
    {
        a += 1;
    }
    let mut b: usize = s.len();
    while b > a && is_space_char(s[b - 1])
        invariant
            a <= b <= s.len(),
            forall|j: int| b <= j < s.len() ==> is_space(s@[j]),
        decreases b,
    {
        b -= 1;
    }
    proof {
        let rest = s@.skip(a as int);
        lemma_trim_start_skip(s@, a as int);
        lemma_trim_end_take(rest, b - a);
    }
    slice_subrange(s, a, b)
}

/// What stands in `s` before the first `d`; all of `s` if there is none.
pub fn first_piece<'a>(s: &'a [char], d: char) -> (r: &'a [char])
    ensures
        r@ == split(s@, d).first(),
{
    let mut n: usize = 0;
    while n < s.len() && s[n] != d
        invariant
            n <= s.len(),
            forall|j: int| 0 <= j < n ==> s@[j] != d,
        decreases s.len() - n,
    {
        n += 1;
    }
    proof {
        lemma_first_piece(s@, d, n as int);
    }
    slice_subrange(s, 0, n)
}

/// The pieces of `s` between the occurrences of `d`.
pub fn split_chars(s: &[char], d: char) -> (r: Vec<Vec<char>>)
    ensures
        views(r@) == split(s@, d),
{
    let mut pieces: Vec<Vec<char>> = Vec::new();
    let mut piece: Vec<char> = Vec::new();
    let mut i: usize = 0;
    proof {
        assert(s@.take(0) =~= Seq::<char>::empty());
        assert(views(pieces@).push(piece@) =~= split(s@.take(0), d));
    }
    while i < s.len()
        invariant
            i <= s.len(),
            views(pieces@).push(piece@) == split(s@.take(i as int), d),
        decreases s.len() - i,
    {
        let ghost before = views(pieces@);
        let ghost last = piece@;
        proof {
            assert(s@.take(i + 1).drop_last() =~= s@.take(i as int));
            assert(before.push(last).drop_last() =~= before);
        }
        if s[i] == d {
            pieces.push(piece);
            piece = Vec::new();
            proof {
                assert(views(pieces@) =~= before.push(last));
            }
        } else {
            piece.push(s[i]);
        }
        i += 1;
    }
    proof {
        assert(s@.take(s@.len() as int) =~= s@);
    }
    let ghost before = views(pieces@);
    pieces.push(piece);
    proof {
        assert(views(pieces@) =~= before.push(piece@));
    }
    pieces
}

/// Whether `a` and `b` hold the same characters.
pub fn same_chars(a: &[char], b: &[char]) -> (r: bool)
    ensures
        r == (a@ == b@),
{
    if a.len() != b.len() {
        return false;
    }
    let mut i: usize = 0;
    while i < a.len()
        invariant
            i <= a.len(),
            a@.len() == b@.len(),
            forall|j: int| 0 <= j < i ==> a@[j] == b@[j],
        decreases a.len() - i,
    {
        if a[i] != b[i] {
            return false;
        }
        i += 1;
    }
    proof {
        assert(a@ =~= b@);
    }
    true
}

/// The entries of the `d`-separated list `s`.
pub fn entries_of(s: &[char], d: char) -> (r: Vec<Vec<char>>)
    ensures
        views(r@) == entries(s@, d),
{
    let pieces = split_chars(s, d);
    let mut out: Vec<Vec<char>> = Vec::new();
    let mut i: usize = 0;
    while i < pieces.len()
        invariant
            i <= pieces.len(),
            views(out@) == views(pieces@).take(i as int).map_values(trimmed()).filter(non_empty()),
        decreases pieces.len() - i,
    {
        let t = trim_chars(pieces[i].as_slice());
        let ghost seen = views(pieces@).take(i as int);
        proof {
            assert(views(pieces@).take(i + 1) =~= seen.push(pieces@[i as int]@));
            assert(seen.push(pieces@[i as int]@).map_values(trimmed()) =~= seen.map_values(
                trimmed(),
            ).push(t@));
            Seq::lemma_filter_push(seen.map_values(trimmed()), t@, non_empty());
        }
        if t.len() > 0 {
            out.push(slice_to_vec(t));
        }
        i += 1;
    }
    proof {
        assert(views(pieces@).take(pieces@.len() as int) =~= views(pieces@));
    }
    out
}

/// Appends to `out` the elements of `parts` with `d` between them.
pub fn append_joined(out: &mut Vec<char>, parts: &Vec<Vec<char>>, d: char)
    ensures
        final(out)@ == old(out)@ + join(views(parts@), d),
{
    let mut i: usize = 0;
    while i < parts.len()
        invariant
            i <= parts.len(),
            out@ == old(out)@ + join(views(parts@).take(i as int), d),
        decreases parts.len() - i,
    {
        let ghost seen = views(parts@).take(i as int);
        let ghost next = views(parts@).take(i + 1);
        proof {
            assert(next.drop_last() =~= seen);
        }
        if i > 0 {
            out.push(d);
        }
        out.extend_from_slice(parts[i].as_slice());
        i += 1;
    }
    proof {
        assert(views(parts@).take(parts@.len() as int) =~= views(parts@));
    }
}

/// Whether `v` starts with `ot=`.
pub fn has_ot_prefix(v: &[char]) -> (r: bool)
    ensures
        r == is_ot(v@),
{
    v.len() >= 3 && v[0] == 'o' && v[1] == 't' && v[2] == '='
}

/// Moves to `out` the sub-entries of `vendor` that survive a merge under
/// `key`.
fn keep_parts(vendor: &[char], key: &[char], out: &mut Vec<Vec<char>>)
    requires
        is_ot(vendor@),
    ensures
        views(final(out)@) == views(old(out)@) + kept_of(vendor@, key@),
{
    let parts = entries_of(slice_subrange(vendor, 3, vendor.len()), ';');
    let ghost all = views(parts@);
    let ghost start = views(out@);
    for part in it: parts
        invariant
            views(it.seq()) == all,
            views(out@) == start + all.take(it.index() as int).filter(other_key(key@)),
    {
        let ghost seen = all.take(it.index() as int);
        let ghost before = views(out@);
        proof {
            assert(all.take(it.index() + 1) =~= seen.push(part@));
            Seq::lemma_filter_push(seen, part@, other_key(key@));
        }
        if !same_chars(first_piece(part.as_slice(), ':'), key) {
            out.push(part);
            proof {
                assert(views(out@) =~= before.push(part@));
            }
        }
    }
    proof {
        assert(all.take(all.len() as int) =~= all);
    }
}

/// Merges the sub-entry `sub_kv` (such as `th:8000`) into the tracestate
/// `tracestate`, under the `ot` vendor.
pub fn merge_ot_tracestate(tracestate: &str, sub_kv: &str) -> (r: String)
    ensures
        r@ == merged(tracestate@, sub_kv@),
{
    let state = chars_of(tracestate);
    let entry = chars_of(sub_kv);
    let sub_key = first_piece(entry.as_slice(), ':');

    let mut ot_parts: Vec<Vec<char>> = Vec::new();
    let mut other_vendors: Vec<Vec<char>> = Vec::new();

    let vendors = entries_of(state.as_slice(), ',');
    let ghost all = views(vendors@);
    for vendor in it: vendors
        invariant
            views(it.seq()) == all,
            views(ot_parts@) == kept_parts(all.take(it.index() as int), sub_key@),
            views(other_vendors@) == all.take(it.index() as int).filter(not_ot()),
    {
        let ghost seen = all.take(it.index() as int);
        proof {
            assert(all.take(it.index() + 1) =~= seen.push(vendor@));
            assert(seen.push(vendor@).drop_last() =~= seen);
            Seq::lemma_filter_push(seen, vendor@, not_ot());
        }
        if has_ot_prefix(vendor.as_slice()) {
            keep_parts(vendor.as_slice(), sub_key, &mut ot_parts);
        } else {
            other_vendors.push(vendor);
        }
    }
    proof {
        assert(all.take(all.len() as int) =~= all);
    }

    let ghost parts = views(ot_parts@);
    ot_parts.push(entry);
    proof {
        assert(views(ot_parts@) =~= parts.push(sub_kv@));
    }
    let mut result: Vec<char> = Vec::new();
    result.push('o');
    result.push('t');
    result.push('=');
    append_joined(&mut result, &ot_parts, ';');
    if other_vendors.len() > 0 {
        result.push(',');
        append_joined(&mut result, &other_vendors, ',');
    }
    string_of(&result)
}

/// Records the sampling threshold `value` in the tracestate `tracestate`,
/// as the sub-entry `th:<value>` of the `ot` vendor.
pub fn merge_threshold(tracestate: &str, value: &str) -> (r: String)
    ensures
        r@ == merged(tracestate@, threshold_entry(value@)),
{
    let mut sub_kv = String::new();
    sub_kv.push('t');
    sub_kv.push('h');
    sub_kv.push(':');
    sub_kv.append(value);
    proof {
        assert(sub_kv@ =~= threshold_entry(value@));
    }
    merge_ot_tracestate(tracestate, sub_kv.as_str())
}

} // verus!
