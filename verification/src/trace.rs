//! The trace adapter: a span with its resource and scope, read through
//! selectors. The one thing that can be written is the sampling threshold,
//! which goes into the span's tracestate.

use std::borrow::Cow;
use vstd::prelude::*;
use crate::attrs::{
    cow_view, find_attribute_path, non_empty, path_keys, present, resolve, resource_attributes,
    resource_attrs, scope_attributes, scope_attrs,
};
use crate::codec::{id_text, identifier};
use crate::json::{json_member, json_str, member};
use crate::otel::{InstrumentationScope, Resource, Span};
use crate::selector::{IdForm, TraceField, TraceFieldSelector};
use crate::tracestate::{merge_threshold, merged, threshold_entry};

verus! {

/// A span under evaluation, with exclusive access to the span.
pub struct MutTraceContext<'a> {
    pub span: &'a mut Span,
    pub resource: Option<&'a Resource>,
    pub scope: Option<&'a InstrumentationScope>,
    pub resource_schema_url: &'a str,
    pub scope_schema_url: &'a str,
    /// The form in which `trace_id`, `span_id` and `parent_span_id` are read.
    pub id_form: IdForm,
}

/// What a trace context refers to, as plain values.
pub struct TraceSnapshot {
    pub span: Span,
    pub resource: Option<Resource>,
    pub scope: Option<InstrumentationScope>,
    pub resource_schema_url: Seq<char>,
    pub scope_schema_url: Seq<char>,
    pub id_form: IdForm,
}

impl<'a> View for MutTraceContext<'a> {
    type V = TraceSnapshot;

    open spec fn view(&self) -> TraceSnapshot {
        TraceSnapshot {
            span: *self.span,
            resource: match self.resource {
                Some(r) => Some(*r),
                None => None,
            },
            scope: match self.scope {
                Some(s) => Some(*s),
                None => None,
            },
            resource_schema_url: self.resource_schema_url@,
            scope_schema_url: self.scope_schema_url@,
            id_form: self.id_form,
        }
    }
}

// ─── Model ───────────────────────────────────────────────────────────

/// The status code as the policy names it.
pub open spec fn span_status(code: Seq<char>) -> Option<Seq<char>> {
    if code == "STATUS_CODE_OK"@ {
        Some("SPAN_STATUS_CODE_OK"@)
    } else if code == "STATUS_CODE_ERROR"@ {
        Some("SPAN_STATUS_CODE_ERROR"@)
    } else if code == "STATUS_CODE_UNSET"@ {
        Some("SPAN_STATUS_CODE_UNSET"@)
    } else {
        None
    }
}

/// The name of an event: its member `name`, when that is a non-empty string.
pub open spec fn event_name(event: serde_json::Value) -> Option<Seq<char>> {
    match json_member(event, "name"@) {
        Some(m) => match json_str(m) {
            Some(s) => present(s),
            None => None,
        },
        None => None,
    }
}

/// The name of the first event that has one.
pub open spec fn first_event_name(events: Seq<serde_json::Value>) -> Option<Seq<char>>
    decreases events.len(),
{
    if events.len() == 0 {
        None
    } else {
        match event_name(events.first()) {
            Some(name) => Some(name),
            None => first_event_name(events.drop_first()),
        }
    }
}

impl TraceSnapshot {
    /// What the plain field `f` reads as.
    pub open spec fn simple(self, f: TraceField) -> Option<Seq<char>> {
        match f {
            TraceField::Name => present(self.span.name@),
            TraceField::TraceId => id_text(self.id_form, self.span.trace_id@),
            TraceField::SpanId => id_text(self.id_form, self.span.span_id@),
            TraceField::ParentSpanId => id_text(self.id_form, self.span.parent_span_id@),
            TraceField::TraceState => present(self.span.trace_state@),
            TraceField::ScopeName => match self.scope {
                Some(s) => present(s.name@),
                None => None,
            },
            TraceField::ScopeVersion => match self.scope {
                Some(s) => present(s.version@),
                None => None,
            },
            TraceField::ResourceSchemaUrl => present(self.resource_schema_url),
            TraceField::ScopeSchemaUrl => present(self.scope_schema_url),
            TraceField::Unspecified => None,
        }
    }

    /// What the selector `field` reads as. Event attributes, link trace ids
    /// and the sampling threshold are never readable.
    pub open spec fn field(self, field: TraceFieldSelector) -> Option<Seq<char>> {
        match field {
            TraceFieldSelector::Simple(f) => self.simple(f),
            TraceFieldSelector::SpanAttribute(path) => resolve(
                self.span.attributes@,
                path_keys(path@),
            ),
            TraceFieldSelector::ResourceAttribute(path) => resolve(
                resource_attributes(self.resource),
                path_keys(path@),
            ),
            TraceFieldSelector::ScopeAttribute(path) => resolve(
                scope_attributes(self.scope),
                path_keys(path@),
            ),
            TraceFieldSelector::SpanKind => present(self.span.kind@),
            TraceFieldSelector::SpanStatus => match self.span.status {
                Some(status) => span_status(status.code@),
                None => None,
            },
            TraceFieldSelector::EventName => first_event_name(self.span.events@),
            TraceFieldSelector::EventAttribute(_) => None,
            TraceFieldSelector::LinkTraceId => None,
            TraceFieldSelector::SamplingThreshold => None,
        }
    }
}

// ─── Reading ─────────────────────────────────────────────────────────

/// The status code `code` as the policy names it.
pub fn status_name(code: &str) -> (r: Option<&'static str>)
    ensures
        crate::text::str_view(r) == span_status(code@),
{
    if *code == *"STATUS_CODE_OK" {
        Some("SPAN_STATUS_CODE_OK")
    } else if *code == *"STATUS_CODE_ERROR" {
        Some("SPAN_STATUS_CODE_ERROR")
    } else if *code == *"STATUS_CODE_UNSET" {
        Some("SPAN_STATUS_CODE_UNSET")
    } else {
        None
    }
}

/// The name of the first of `events` that has a non-empty string `name`.
pub fn find_event_name<'a>(events: &'a [serde_json::Value]) -> (r: Option<Cow<'a, str>>)
    ensures
        cow_view(r) == first_event_name(events@),
{
    let mut i: usize = 0;
    proof {
        assert(events@.skip(0) =~= events@);
    }
    while i < events.len()
        invariant
            i <= events.len(),
            first_event_name(events@) == first_event_name(events@.skip(i as int)),
        decreases events.len() - i,
    {
        proof {
            assert(events@.skip(i as int).drop_first() =~= events@.skip(i + 1));
        }
        match member(&events[i], "name") {
            Some(m) => match m.as_str() {
                Some(name) => {
                    let found = non_empty(name);
                    if found.is_some() {
                        return found;
                    }
                },
                None => {},
            },
            None => {},
        }
        i += 1;
    }
    None
}

/// Reads `field` of a span. Shared by every context that holds a span.
pub fn resolve_trace_field<'a>(
    span: &'a Span,
    resource: Option<&'a Resource>,
    scope: Option<&'a InstrumentationScope>,
    resource_schema_url: &'a str,
    scope_schema_url: &'a str,
    id_form: IdForm,
    field: &TraceFieldSelector,
) -> (r: Option<Cow<'a, str>>)
    ensures
        cow_view(r) == (TraceSnapshot {
            span: *span,
            resource: match resource {
                Some(r) => Some(*r),
                None => None,
            },
            scope: match scope {
                Some(s) => Some(*s),
                None => None,
            },
            resource_schema_url: resource_schema_url@,
            scope_schema_url: scope_schema_url@,
            id_form,
        }).field(*field),
{
    match field {
        TraceFieldSelector::Simple(f) => match f {
            TraceField::Name => non_empty(span.name.as_str()),
            TraceField::TraceId => identifier(id_form, span.trace_id.as_str()),
            TraceField::SpanId => identifier(id_form, span.span_id.as_str()),
            TraceField::ParentSpanId => identifier(id_form, span.parent_span_id.as_str()),
            TraceField::TraceState => non_empty(span.trace_state.as_str()),
            TraceField::ScopeName => match scope {
                Some(s) => non_empty(s.name.as_str()),
                None => None,
            },
            TraceField::ScopeVersion => match scope {
                Some(s) => non_empty(s.version.as_str()),
                None => None,
            },
            TraceField::ResourceSchemaUrl => non_empty(resource_schema_url),
            TraceField::ScopeSchemaUrl => non_empty(scope_schema_url),
            _ => None,
        },
        TraceFieldSelector::SpanAttribute(path) => find_attribute_path(
            span.attributes.as_slice(),
            path.as_slice(),
        ),
        TraceFieldSelector::ResourceAttribute(path) => find_attribute_path(
            resource_attrs(resource),
            path.as_slice(),
        ),
        TraceFieldSelector::ScopeAttribute(path) => find_attribute_path(
            scope_attrs(scope),
            path.as_slice(),
        ),
        TraceFieldSelector::SpanKind => non_empty(span.kind.as_str()),
        TraceFieldSelector::SpanStatus => match &span.status {
            Some(status) => match status_name(status.code.as_str()) {
                Some(name) => Some(Cow::Borrowed(name)),
                None => None,
            },
            None => None,
        },
        TraceFieldSelector::EventName => find_event_name(span.events.as_slice()),
        TraceFieldSelector::EventAttribute(_)
        | TraceFieldSelector::LinkTraceId
        | TraceFieldSelector::SamplingThreshold => None,
    }
}

impl<'a> MutTraceContext<'a> {
    /// Reads `field`.
    pub fn get_field(&self, field: &TraceFieldSelector) -> (r: Option<Cow<'_, str>>)
        ensures
            cow_view(r) == self@.field(*field),
    {
        resolve_trace_field(
            self.span,
            self.resource,
            self.scope,
            self.resource_schema_url,
            self.scope_schema_url,
            self.id_form,
            field,
        )
    }

    /// Spans are not edited: nothing is removed.
    pub fn remove_field(&mut self, _field: &TraceFieldSelector) -> (hit: bool)
        ensures
            !hit,
            *final(final(self).span) == *final(old(self).span),
            final(self)@ == old(self)@,
    {
        false
    }

    /// Spans are not edited: nothing is redacted.
    pub fn redact_field(&mut self, _field: &TraceFieldSelector, _replacement: &str) -> (hit: bool)
        ensures
            !hit,
            *final(final(self).span) == *final(old(self).span),
            final(self)@ == old(self)@,
    {
        false
    }

    /// Spans are not edited: nothing is renamed.
    pub fn rename_field(&mut self, _from: &TraceFieldSelector, _to: &str, _upsert: bool) -> (ok:
        bool)
        ensures
            !ok,
            *final(final(self).span) == *final(old(self).span),
            final(self)@ == old(self)@,
    {
        false
    }

    /// Records the sampling threshold `value` in the span's tracestate, as the
    /// sub-entry `th:<value>` of the `ot` vendor. No other field is
    /// writable.
    pub fn add_field(&mut self, field: &TraceFieldSelector, value: &str, _upsert: bool) -> (ok:
        bool)
        ensures
            ok == (*field is SamplingThreshold),
            *final(final(self).span) == *final(old(self).span),
            !ok ==> final(self)@ == old(self)@,
            ok ==> final(self)@ == (TraceSnapshot {
                span: Span { trace_state: final(self).span.trace_state, ..*old(self).span },
                ..old(self)@
            }),
            ok ==> final(self).span.trace_state@ == merged(
                old(self).span.trace_state@,
                threshold_entry(value@),
            ),
    {
        match field {
            TraceFieldSelector::SamplingThreshold => {
                self.span.trace_state = merge_threshold(self.span.trace_state.as_str(), value);
                true
            },
            _ => false,
        }
    }
}

} // verus!
