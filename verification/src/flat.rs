//! Flat records: the simplest shape in which a record can be put before the
//! policies. Every field is a string, and attributes are string maps without
//! nesting.

use std::borrow::Cow;
use vstd::prelude::*;
use crate::attrs::{cow_view, non_empty, present};
use crate::selector::{
    LogField, LogFieldSelector, MetricField, MetricFieldSelector, TraceField, TraceFieldSelector,
};
use crate::text::str_view;
use crate::tracestate::{merge_threshold, merged, threshold_entry};

verus! {

// ─── String maps ─────────────────────────────────────────────────────

/// A map from attribute names to string values, kept as a list of entries
/// in which no name occurs twice.
#[derive(Debug, Default)]
pub struct Attributes {
    entries: Vec<(String, String)>,
}

/// The value of the first of `entries` under `key`.
pub open spec fn lookup(entries: Seq<(String, String)>, key: Seq<char>) -> Option<Seq<char>>
    decreases entries.len(),
{
    if entries.len() == 0 {
        None
    } else if entries.first().0@ == key {
        Some(entries.first().1@)
    } else {
        lookup(entries.drop_first(), key)
    }
}

/// `lookup` finds the entry at `i` when no earlier entry has the key.
proof fn lemma_lookup_at(entries: Seq<(String, String)>, key: Seq<char>, i: int)
    requires
        0 <= i < entries.len(),
        entries[i].0@ == key,
        forall|j: int| 0 <= j < i ==> (#[trigger] entries[j]).0@ != key,
    ensures
        lookup(entries, key) == Some(entries[i].1@),
    decreases i,
{
    if i > 0 {
        let rest = entries.drop_first();
        lemma_lookup_at(rest, key, i - 1);
    }
}

/// `lookup` finds nothing when no entry has the key.
proof fn lemma_lookup_none(entries: Seq<(String, String)>, key: Seq<char>)
    requires
        forall|j: int| 0 <= j < entries.len() ==> (#[trigger] entries[j]).0@ != key,
    ensures
        lookup(entries, key) is None,
    decreases entries.len(),
{
    if entries.len() > 0 {
        let rest = entries.drop_first();
        lemma_lookup_none(rest, key);
    }
}

/// `lookup` under another key ignores an entry that is changed or added under
/// `key`.
proof fn lemma_lookup_other(
    before: Seq<(String, String)>,
    after: Seq<(String, String)>,
    key: Seq<char>,
    other: Seq<char>,
)
    requires
        other != key,
        before.len() <= after.len() <= before.len() + 1,
        forall|j: int|
            0 <= j < before.len() ==> (#[trigger] after[j]).0@ == before[j].0@ && (before[j].0@
                != key ==> after[j].1@ == before[j].1@),
        after.len() > before.len() ==> after.last().0@ == key,
    ensures
        lookup(after, other) == lookup(before, other),
    decreases after.len(),
{
    if before.len() > 0 {
        let b = before.drop_first();
        let a = after.drop_first();
        if before[0].0@ != other {
            lemma_lookup_other(b, a, key, other);
        }
    }
}

impl View for Attributes {
    type V = Map<Seq<char>, Seq<char>>;

    closed spec fn view(&self) -> Map<Seq<char>, Seq<char>> {
        Map::new(
            |key: Seq<char>| lookup(self.entries@, key) is Some,
            |key: Seq<char>| lookup(self.entries@, key).unwrap(),
        )
    }
}

impl Attributes {
    #[verifier::type_invariant]
    spec fn unique(&self) -> bool {
        forall|i: int, j: int|
            0 <= i < j < self.entries@.len() ==> (#[trigger] self.entries@[i]).0@ != (
            #[trigger] self.entries@[j]).0@
    }

    /// The value under `key`, if there is one.
    pub open spec fn spec_get(&self, key: Seq<char>) -> Option<Seq<char>> {
        if self@.contains_key(key) {
            Some(self@[key])
        } else {
            None
        }
    }

    /// An empty map.
    pub fn new() -> (r: Self)
        ensures
            r@ == Map::<Seq<char>, Seq<char>>::empty(),
    {
        let r = Attributes { entries: Vec::new() };
        r
    }

    /// The index of the entry under `key`.
    fn position(&self, key: &str) -> (r: Option<usize>)
        ensures
            match r {
                Some(i) => i < self.entries@.len() && self.entries@[i as int].0@ == key@
                    && lookup(self.entries@, key@) == Some(self.entries@[i as int].1@),
                None => lookup(self.entries@, key@) is None && forall|j: int|
                    0 <= j < self.entries@.len() ==> (#[trigger] self.entries@[j]).0@ != key@,
            },
    {
        let mut i: usize = 0;
        while i < self.entries.len()
            invariant
                i <= self.entries@.len(),
                forall|j: int| 0 <= j < i ==> (#[trigger] self.entries@[j]).0@ != key@,
            decreases self.entries@.len() - i,
        {
            if *self.entries[i].0.as_str() == *key {
                proof {
                    lemma_lookup_at(self.entries@, key@, i as int);
                }
                return Some(i);
            }
            i += 1;
        }
        proof {
            lemma_lookup_none(self.entries@, key@);
        }
        None
    }

    /// The value under `key`.
    pub fn get(&self, key: &str) -> (r: Option<&str>)
        ensures
            str_view(r) == self.spec_get(key@),
    {
        match self.position(key) {
            Some(i) => Some(self.entries[i].1.as_str()),
            None => None,
        }
    }

    /// Puts `value` under `key`, in place of any value that was there.
    pub fn insert(&mut self, key: &str, value: &str)
        ensures
            final(self)@ == old(self)@.insert(key@, value@),
    {
        proof {
            use_type_invariant(&*self);
        }
        let ghost before = self.entries@;
        let found = self.position(key);
        let mut entries: Vec<(String, String)> = Vec::new();
        core::mem::swap(&mut self.entries, &mut entries);
        match found {
            Some(i) => {
                entries.set(i, (key.to_owned(), value.to_owned()));
                proof {
                    lemma_lookup_at(entries@, key@, i as int);
                }
            },
            None => {
                entries.push((key.to_owned(), value.to_owned()));
                proof {
                    let last = entries@.len() - 1;
                    lemma_lookup_at(entries@, key@, last);
                }
            },
        }
        proof {
            assert forall|other: Seq<char>| other != key@ implies lookup(entries@, other) == lookup(
                before,
                other,
            ) by {
                lemma_lookup_other(before, entries@, key@, other);
            }
        }
        core::mem::swap(&mut self.entries, &mut entries);
    }
}

/// What an attribute path reads as in a string map. A map of strings is an
/// attribute list without nesting: a path of one key reads the value under
/// that key, absent when it is empty, and any other path is absent.
pub open spec fn flat_attribute(attrs: Attributes, path: Seq<String>) -> Option<Seq<char>> {
    if path.len() == 1 {
        match attrs.spec_get(path[0]@) {
            Some(value) => present(value),
            None => None,
        }
    } else {
        None
    }
}

/// Reads the attribute named by `path`.
pub fn flat_get<'a>(attrs: &'a Attributes, path: &[String]) -> (r: Option<Cow<'a, str>>)
    ensures
        cow_view(r) == flat_attribute(*attrs, path@),
{
    if path.len() != 1 {
        return None;
    }
    match attrs.get(path[0].as_str()) {
        Some(value) => non_empty(value),
        None => None,
    }
}

// ─── Records ─────────────────────────────────────────────────────────

/// A flat log record.
#[derive(Debug, Default)]
pub struct LogRecord {
    pub id: String,
    pub body: String,
    pub severity_text: String,
    pub trace_id: String,
    pub span_id: String,
    pub attributes: Attributes,
    pub resource_attributes: Attributes,
    pub scope_attributes: Attributes,
}

/// A flat metric.
#[derive(Debug, Default)]
pub struct MetricRecord {
    pub id: String,
    pub name: String,
    pub description: String,
    pub unit: String,
    pub metric_type: String,
    pub aggregation_temporality: String,
    pub datapoint_attributes: Attributes,
    pub resource_attributes: Attributes,
    pub scope_attributes: Attributes,
}

/// A flat span.
#[derive(Debug, Default)]
pub struct TraceRecord {
    pub id: String,
    pub name: String,
    pub trace_id: String,
    pub span_id: String,
    pub parent_span_id: String,
    pub trace_state: String,
    pub span_kind: String,
    pub span_status: String,
    pub attributes: Attributes,
    pub resource_attributes: Attributes,
    pub scope_attributes: Attributes,
}

impl LogRecord {
    /// What the selector `field` reads as.
    pub open spec fn field(self, field: LogFieldSelector) -> Option<Seq<char>> {
        match field {
            LogFieldSelector::Simple(f) => match f {
                LogField::Body => present(self.body@),
                LogField::SeverityText => present(self.severity_text@),
                LogField::TraceId => present(self.trace_id@),
                LogField::SpanId => present(self.span_id@),
                _ => None,
            },
            LogFieldSelector::LogAttribute(path) => flat_attribute(self.attributes, path@),
            LogFieldSelector::ResourceAttribute(path) => flat_attribute(
                self.resource_attributes,
                path@,
            ),
            LogFieldSelector::ScopeAttribute(path) => flat_attribute(self.scope_attributes, path@),
        }
    }

    /// Reads `field`.
    pub fn get_field(&self, field: &LogFieldSelector) -> (r: Option<Cow<'_, str>>)
        ensures
            cow_view(r) == self.field(*field),
    {
        match field {
            LogFieldSelector::Simple(f) => match f {
                LogField::Body => non_empty(self.body.as_str()),
                LogField::SeverityText => non_empty(self.severity_text.as_str()),
                LogField::TraceId => non_empty(self.trace_id.as_str()),
                LogField::SpanId => non_empty(self.span_id.as_str()),
                _ => None,
            },
            LogFieldSelector::LogAttribute(path) => flat_get(&self.attributes, path.as_slice()),
            LogFieldSelector::ResourceAttribute(path) => flat_get(
                &self.resource_attributes,
                path.as_slice(),
            ),
            LogFieldSelector::ScopeAttribute(path) => flat_get(
                &self.scope_attributes,
                path.as_slice(),
            ),
        }
    }
}

impl MetricRecord {
    /// What the selector `field` reads as.
    pub open spec fn field(self, field: MetricFieldSelector) -> Option<Seq<char>> {
        match field {
            MetricFieldSelector::Simple(f) => match f {
                MetricField::Name => present(self.name@),
                MetricField::Description => present(self.description@),
                MetricField::Unit => present(self.unit@),
                _ => None,
            },
            MetricFieldSelector::DatapointAttribute(path) => flat_attribute(
                self.datapoint_attributes,
                path@,
            ),
            MetricFieldSelector::ResourceAttribute(path) => flat_attribute(
                self.resource_attributes,
                path@,
            ),
            MetricFieldSelector::ScopeAttribute(path) => flat_attribute(
                self.scope_attributes,
                path@,
            ),
            MetricFieldSelector::Type => present(self.metric_type@),
            MetricFieldSelector::Temporality => present(self.aggregation_temporality@),
        }
    }

    /// Reads `field`.
    pub fn get_field(&self, field: &MetricFieldSelector) -> (r: Option<Cow<'_, str>>)
        ensures
            cow_view(r) == self.field(*field),
    {
        match field {
            MetricFieldSelector::Simple(f) => match f {
                MetricField::Name => non_empty(self.name.as_str()),
                MetricField::Description => non_empty(self.description.as_str()),
                MetricField::Unit => non_empty(self.unit.as_str()),
                _ => None,
            },
            MetricFieldSelector::DatapointAttribute(path) => flat_get(
                &self.datapoint_attributes,
                path.as_slice(),
            ),
            MetricFieldSelector::ResourceAttribute(path) => flat_get(
                &self.resource_attributes,
                path.as_slice(),
            ),
            MetricFieldSelector::ScopeAttribute(path) => flat_get(
                &self.scope_attributes,
                path.as_slice(),
            ),
            MetricFieldSelector::Type => non_empty(self.metric_type.as_str()),
            MetricFieldSelector::Temporality => non_empty(self.aggregation_temporality.as_str()),
        }
    }
}

impl TraceRecord {
    /// What the selector `field` reads as.
    pub open spec fn field(self, field: TraceFieldSelector) -> Option<Seq<char>> {
        match field {
            TraceFieldSelector::Simple(f) => match f {
                TraceField::Name => present(self.name@),
                TraceField::TraceId => present(self.trace_id@),
                TraceField::SpanId => present(self.span_id@),
                TraceField::ParentSpanId => present(self.parent_span_id@),
                TraceField::TraceState => present(self.trace_state@),
                _ => None,
            },
            TraceFieldSelector::SpanAttribute(path) => flat_attribute(self.attributes, path@),
            TraceFieldSelector::ResourceAttribute(path) => flat_attribute(
                self.resource_attributes,
                path@,
            ),
            TraceFieldSelector::ScopeAttribute(path) => flat_attribute(
                self.scope_attributes,
                path@,
            ),
            TraceFieldSelector::SpanKind => present(self.span_kind@),
            TraceFieldSelector::SpanStatus => present(self.span_status@),
            TraceFieldSelector::EventName => None,
            TraceFieldSelector::EventAttribute(_) => None,
            TraceFieldSelector::LinkTraceId => None,
            TraceFieldSelector::SamplingThreshold => None,
        }
    }

    /// Reads `field`.
    pub fn get_field(&self, field: &TraceFieldSelector) -> (r: Option<Cow<'_, str>>)
        ensures
            cow_view(r) == self.field(*field),
    {
        match field {
            TraceFieldSelector::Simple(f) => match f {
                TraceField::Name => non_empty(self.name.as_str()),
                TraceField::TraceId => non_empty(self.trace_id.as_str()),
                TraceField::SpanId => non_empty(self.span_id.as_str()),
                TraceField::ParentSpanId => non_empty(self.parent_span_id.as_str()),
                TraceField::TraceState => non_empty(self.trace_state.as_str()),
                _ => None,
            },
            TraceFieldSelector::SpanAttribute(path) => flat_get(&self.attributes, path.as_slice()),
            TraceFieldSelector::ResourceAttribute(path) => flat_get(
                &self.resource_attributes,
                path.as_slice(),
            ),
            TraceFieldSelector::ScopeAttribute(path) => flat_get(
                &self.scope_attributes,
                path.as_slice(),
            ),
            TraceFieldSelector::SpanKind => non_empty(self.span_kind.as_str()),
            TraceFieldSelector::SpanStatus => non_empty(self.span_status.as_str()),
            TraceFieldSelector::EventName => None,
            TraceFieldSelector::EventAttribute(_) => None,
            TraceFieldSelector::LinkTraceId => None,
            TraceFieldSelector::SamplingThreshold => None,
        }
    }

    /// Flat spans are not edited: nothing is removed.
    pub fn remove_field(&mut self, _field: &TraceFieldSelector) -> (hit: bool)
        ensures
            !hit,
            *final(self) == *old(self),
    {
        false
    }

    /// Flat spans are not edited: nothing is redacted.
    pub fn redact_field(&mut self, _field: &TraceFieldSelector, _replacement: &str) -> (hit: bool)
        ensures
            !hit,
            *final(self) == *old(self),
    {
        false
    }

    /// Flat spans are not edited: nothing is renamed.
    pub fn rename_field(&mut self, _from: &TraceFieldSelector, _to: &str, _upsert: bool) -> (ok:
        bool)
        ensures
            !ok,
            *final(self) == *old(self),
    {
        false
    }

    /// Records the sampling threshold `value` in the tracestate, as the
    /// sub-entry `th:<value>` of the `ot` vendor. No other field is
    /// writable.
    pub fn add_field(&mut self, field: &TraceFieldSelector, value: &str, _upsert: bool) -> (ok:
        bool)
        ensures
            ok == (*field is SamplingThreshold),
            !ok ==> *final(self) == *old(self),
            ok ==> *final(self) == (TraceRecord { trace_state: final(self).trace_state, ..*old(self) }),
            ok ==> final(self).trace_state@ == merged(
                old(self).trace_state@,
                threshold_entry(value@),
            ),
    {
        match field {
            TraceFieldSelector::SamplingThreshold => {
                self.trace_state = merge_threshold(self.trace_state.as_str(), value);
                true
            },
            _ => false,
        }
    }
}

} // verus!
