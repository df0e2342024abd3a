//! The log adapter: a log record with its resource and scope, read and
//! edited through selectors.

use std::borrow::Cow;
use vstd::prelude::*;
use crate::attrs::{
    any_value_string, attr_renamed, attr_set, cow_view, find_attribute_path, has_key, is_text,
    non_empty, present, redact_attr, remove_attr, rename_attr, resolve, path_keys, set_attr, string_value,
    text_of, without_key, lemma_without_key_len, law_removed_is_absent, law_set_reads_back,
    law_rename_moves_value, lemma_without_key_absent,
};
use crate::codec::{id_text, identifier};
use crate::otel::{InstrumentationScope, KeyValue, LogRecord, Resource};
use crate::selector::{IdForm, LogField, LogFieldSelector};

verus! {

/// A log record under evaluation, with exclusive access to the record and to
/// the resource and scope it belongs to.
pub struct MutLogContext<'a> {
    pub record: &'a mut LogRecord,
    pub resource: Option<&'a mut Resource>,
    pub scope: Option<&'a mut InstrumentationScope>,
    pub resource_schema_url: &'a str,
    pub scope_schema_url: &'a str,
    /// The form in which `trace_id` and `span_id` are read.
    pub id_form: IdForm,
}

/// What a log context refers to, as plain values.
pub struct LogSnapshot {
    pub record: LogRecord,
    pub resource: Option<Resource>,
    pub scope: Option<InstrumentationScope>,
    pub resource_schema_url: Seq<char>,
    pub scope_schema_url: Seq<char>,
    pub id_form: IdForm,
}

impl<'a> View for MutLogContext<'a> {
    type V = LogSnapshot;

    open spec fn view(&self) -> LogSnapshot {
        LogSnapshot {
            record: *self.record,
            resource: match self.resource {
                Some(r) => Some(*r),
                None => None,
            },
            scope: match self.scope {
                Some(s) => Some(*s),
                None => None,
            },
            resource_schema_url: self.resource_schema_url@,
            scope_schema_url: self.scope_schema_url@,
            id_form: self.id_form,
        }
    }
}

// ─── Model ───────────────────────────────────────────────────────────

impl LogSnapshot {
    /// The attributes of the resource; none without a resource.
    pub open spec fn resource_attributes(self) -> Seq<KeyValue> {
        match self.resource {
            Some(r) => r.attributes@,
            None => Seq::empty(),
        }
    }

    /// The attributes of the scope; none without a scope.
    pub open spec fn scope_attributes(self) -> Seq<KeyValue> {
        match self.scope {
            Some(s) => s.attributes@,
            None => Seq::empty(),
        }
    }

    /// What the plain field `f` reads as.
    pub open spec fn simple(self, f: LogField) -> Option<Seq<char>> {
        match f {
            LogField::Body => text_of(self.record.body),
            LogField::SeverityText => present(self.record.severity_text@),
            LogField::TraceId => id_text(self.id_form, self.record.trace_id@),
            LogField::SpanId => id_text(self.id_form, self.record.span_id@),
            LogField::EventName => present(self.record.event_name@),
            LogField::ResourceSchemaUrl => present(self.resource_schema_url),
            LogField::ScopeSchemaUrl => present(self.scope_schema_url),
            LogField::Unspecified => None,
        }
    }

    /// What the selector `field` reads as.
    pub open spec fn field(self, field: LogFieldSelector) -> Option<Seq<char>> {
        match field {
            LogFieldSelector::Simple(f) => self.simple(f),
            LogFieldSelector::LogAttribute(path) => resolve(
                self.record.attributes@,
                path_keys(path@),
            ),
            LogFieldSelector::ResourceAttribute(path) => resolve(
                self.resource_attributes(),
                path_keys(path@),
            ),
            LogFieldSelector::ScopeAttribute(path) => resolve(
                self.scope_attributes(),
                path_keys(path@),
            ),
        }
    }

    /// The plain field `f` holds a value, as the edits see it: a body that is
    /// set, a string that is not empty.
    pub open spec fn simple_is_set(self, f: LogField) -> bool {
        match f {
            LogField::Body => self.record.body is Some,
            LogField::SeverityText => self.record.severity_text@.len() > 0,
            LogField::TraceId => self.record.trace_id@.len() > 0,
            LogField::SpanId => self.record.span_id@.len() > 0,
            LogField::EventName => self.record.event_name@.len() > 0,
            _ => false,
        }
    }

    /// The selector `field` names something that holds a value: a plain field
    /// that is set, or an attribute with an entry.
    pub open spec fn is_set(self, field: LogFieldSelector) -> bool {
        match field {
            LogFieldSelector::Simple(f) => self.simple_is_set(f),
            LogFieldSelector::LogAttribute(path) => path@.len() > 0 && has_key(
                self.record.attributes@,
                path@[0]@,
            ),
            LogFieldSelector::ResourceAttribute(path) => path@.len() > 0 && has_key(
                self.resource_attributes(),
                path@[0]@,
            ),
            LogFieldSelector::ScopeAttribute(path) => path@.len() > 0 && has_key(
                self.scope_attributes(),
                path@[0]@,
            ),
        }
    }

    /// The selector `field` names a place that can be written: one of the five
    /// plain fields of the record, or an attribute of a list that exists.
    pub open spec fn is_writable(self, field: LogFieldSelector) -> bool {
        match field {
            LogFieldSelector::Simple(f) => is_record_field(f),
            LogFieldSelector::LogAttribute(path) => path@.len() > 0,
            LogFieldSelector::ResourceAttribute(path) => path@.len() > 0 && self.resource is Some,
            LogFieldSelector::ScopeAttribute(path) => path@.len() > 0 && self.scope is Some,
        }
    }

    /// `self` and `after` differ at most in the record's plain field `f`.
    pub open spec fn same_but_simple(self, after: LogSnapshot, f: LogField) -> bool {
        &&& after.resource == self.resource
        &&& after.scope == self.scope
        &&& after.resource_schema_url == self.resource_schema_url
        &&& after.scope_schema_url == self.scope_schema_url
        &&& after.id_form == self.id_form
        &&& match f {
            LogField::Body => after.record == (LogRecord { body: after.record.body, ..self.record }),
            LogField::SeverityText => after.record == (LogRecord {
                severity_text: after.record.severity_text,
                ..self.record
            }),
            LogField::TraceId => after.record == (LogRecord {
                trace_id: after.record.trace_id,
                ..self.record
            }),
            LogField::SpanId => after.record == (LogRecord {
                span_id: after.record.span_id,
                ..self.record
            }),
            LogField::EventName => after.record == (LogRecord {
                event_name: after.record.event_name,
                ..self.record
            }),
            _ => after.record == self.record,
        }
    }

    /// `self` and `after` differ at most in the attribute list that `field`
    /// addresses.
    pub open spec fn same_but_attributes(self, after: LogSnapshot, field: LogFieldSelector) -> bool {
        &&& after.resource_schema_url == self.resource_schema_url
        &&& after.scope_schema_url == self.scope_schema_url
        &&& after.id_form == self.id_form
        &&& match field {
            LogFieldSelector::Simple(_) => after == self,
            LogFieldSelector::LogAttribute(_) => {
                &&& after.record == (LogRecord {
                    attributes: after.record.attributes,
                    ..self.record
                })
                &&& after.resource == self.resource
                &&& after.scope == self.scope
            },
            LogFieldSelector::ResourceAttribute(_) => {
                &&& after.record == self.record
                &&& after.scope == self.scope
                &&& match (self.resource, after.resource) {
                    (Some(b), Some(a)) => a == (Resource { attributes: a.attributes, ..b }),
                    (None, None) => true,
                    _ => false,
                }
            },
            LogFieldSelector::ScopeAttribute(_) => {
                &&& after.record == self.record
                &&& after.resource == self.resource
                &&& match (self.scope, after.scope) {
                    (Some(b), Some(a)) => a == (InstrumentationScope { attributes: a.attributes, ..b }),
                    (None, None) => true,
                    _ => false,
                }
            },
        }
    }

    /// The attribute list that `field` addresses; empty for a plain field and
    /// for a list that does not exist.
    pub open spec fn attributes_of(self, field: LogFieldSelector) -> Seq<KeyValue> {
        match field {
            LogFieldSelector::Simple(_) => Seq::empty(),
            LogFieldSelector::LogAttribute(_) => self.record.attributes@,
            LogFieldSelector::ResourceAttribute(_) => self.resource_attributes(),
            LogFieldSelector::ScopeAttribute(_) => self.scope_attributes(),
        }
    }

    /// The plain field `f` of the record holds exactly the string `value`.
    pub open spec fn simple_holds(self, f: LogField, value: Seq<char>) -> bool {
        match f {
            LogField::Body => is_text(self.record.body, value),
            LogField::SeverityText => self.record.severity_text@ == value,
            LogField::TraceId => self.record.trace_id@ == value,
            LogField::SpanId => self.record.span_id@ == value,
            LogField::EventName => self.record.event_name@ == value,
            _ => false,
        }
    }

    /// The plain field `f` of the record is cleared.
    pub open spec fn simple_is_clear(self, f: LogField) -> bool {
        match f {
            LogField::Body => self.record.body is None,
            LogField::SeverityText => self.record.severity_text@.len() == 0,
            LogField::TraceId => self.record.trace_id@.len() == 0,
            LogField::SpanId => self.record.span_id@.len() == 0,
            LogField::EventName => self.record.event_name@.len() == 0,
            _ => true,
        }
    }

    /// `after` is `self` with `field` removed.
    ///
    /// A plain field is cleared. An attribute loses every entry under the
    /// first key of its path.
    pub open spec fn removed(self, after: LogSnapshot, field: LogFieldSelector) -> bool {
        match field {
            LogFieldSelector::Simple(f) => {
                &&& self.same_but_simple(after, f)
                &&& after.simple_is_clear(f)
            },
            _ => {
                let path = path_of(field);
                &&& self.same_but_attributes(after, field)
                &&& after.attributes_of(field) == if path.len() > 0 {
                    without_key(self.attributes_of(field), path[0])
                } else {
                    self.attributes_of(field)
                }
            },
        }
    }

    /// `after` is `self` with `field` overwritten by the string `value`.
    ///
    /// A place that cannot be written stays as it is.
    pub open spec fn overwritten(self, after: LogSnapshot, field: LogFieldSelector, value: Seq<char>) -> bool {
        if !self.is_writable(field) {
            after == self
        } else {
            match field {
                LogFieldSelector::Simple(f) => {
                    &&& self.same_but_simple(after, f)
                    &&& after.simple_holds(f, value)
                },
                _ => {
                    &&& self.same_but_attributes(after, field)
                    &&& attr_set(
                        self.attributes_of(field),
                        after.attributes_of(field),
                        path_of(field)[0],
                        value,
                        true,
                    )
                },
            }
        }
    }

    /// `after` is `self` with the attribute `field` renamed to `to`.
    pub open spec fn renamed(self, after: LogSnapshot, field: LogFieldSelector, to: Seq<char>, upsert: bool) -> bool {
        if !self.is_writable(field) || field is Simple {
            after == self
        } else {
            &&& self.same_but_attributes(after, field)
            &&& attr_renamed(
                self.attributes_of(field),
                after.attributes_of(field),
                path_of(field)[0],
                to,
                upsert,
            )
        }
    }
}

/// `f` is one of the five plain fields stored in the record itself.
pub open spec fn is_record_field(f: LogField) -> bool {
    f is Body || f is SeverityText || f is TraceId || f is SpanId || f is EventName
}

/// The key path of an attribute selector; empty for a plain field.
pub open spec fn path_of(field: LogFieldSelector) -> Seq<Seq<char>> {
    match field {
        LogFieldSelector::Simple(_) => Seq::empty(),
        LogFieldSelector::LogAttribute(path) => path_keys(path@),
        LogFieldSelector::ResourceAttribute(path) => path_keys(path@),
        LogFieldSelector::ScopeAttribute(path) => path_keys(path@),
    }
}

// ─── Reading ─────────────────────────────────────────────────────────

impl<'a> MutLogContext<'a> {
    /// Reads `field`. Absent fields, empty strings and values that are not
    /// strings all read as `None`.
    pub fn get_field(&self, field: &LogFieldSelector) -> (r: Option<Cow<'_, str>>)
        ensures
            cow_view(r) == self@.field(*field),
    {
        match field {
            LogFieldSelector::Simple(f) => match f {
                LogField::Body => any_value_string(self.record.body.as_ref()),
                LogField::SeverityText => non_empty(self.record.severity_text.as_str()),
                LogField::TraceId => identifier(self.id_form, self.record.trace_id.as_str()),
                LogField::SpanId => identifier(self.id_form, self.record.span_id.as_str()),
                LogField::EventName => non_empty(self.record.event_name.as_str()),
                LogField::ResourceSchemaUrl => non_empty(self.resource_schema_url),
                LogField::ScopeSchemaUrl => non_empty(self.scope_schema_url),
                _ => None,
            },
            LogFieldSelector::LogAttribute(path) => find_attribute_path(
                self.record.attributes.as_slice(),
                path.as_slice(),
            ),
            LogFieldSelector::ResourceAttribute(path) => match &self.resource {
                Some(r) => find_attribute_path(r.attributes.as_slice(), path.as_slice()),
                None => find_attribute_path(&[], path.as_slice()),
            },
            LogFieldSelector::ScopeAttribute(path) => match &self.scope {
                Some(s) => find_attribute_path(s.attributes.as_slice(), path.as_slice()),
                None => find_attribute_path(&[], path.as_slice()),
            },
        }
    }
}

// ─── Writing ─────────────────────────────────────────────────────────

impl<'a> MutLogContext<'a> {
    /// Removes `field`. Reports whether it held a value before.
    pub fn remove_field(&mut self, field: &LogFieldSelector) -> (hit: bool)
        ensures
            *final(final(self).record) == *final(old(self).record),
            final(self).resource matches Some(r) ==> *final(r) == *final(old(self).resource.unwrap()),
            final(self).scope matches Some(s) ==> *final(s) == *final(old(self).scope.unwrap()),
            old(self)@.removed(final(self)@, *field),
            hit == old(self)@.is_set(*field),
    {
        match field {
            LogFieldSelector::Simple(f) => match f {
                LogField::Body => {
                    let hit = self.record.body.is_some();
                    self.record.body = None;
                    hit
                },
                LogField::SeverityText => {
                    let hit = !self.record.severity_text.as_str().is_empty();
                    self.record.severity_text = String::new();
                    hit
                },
                LogField::TraceId => {
                    let hit = !self.record.trace_id.as_str().is_empty();
                    self.record.trace_id = String::new();
                    hit
                },
                LogField::SpanId => {
                    let hit = !self.record.span_id.as_str().is_empty();
                    self.record.span_id = String::new();
                    hit
                },
                LogField::EventName => {
                    let hit = !self.record.event_name.as_str().is_empty();
                    self.record.event_name = String::new();
                    hit
                },
                _ => false,
            },
            LogFieldSelector::LogAttribute(path) => remove_attr(
                &mut self.record.attributes,
                path.as_slice(),
            ),
            LogFieldSelector::ResourceAttribute(path) => match &mut self.resource {
                Some(r) => remove_attr(&mut r.attributes, path.as_slice()),
                None => {
                    proof {
                        lemma_without_key_len(Seq::empty(), path_of(*field)[0]);
                    }
                    false
                },
            },
            LogFieldSelector::ScopeAttribute(path) => match &mut self.scope {
                Some(s) => remove_attr(&mut s.attributes, path.as_slice()),
                None => {
                    proof {
                        lemma_without_key_len(Seq::empty(), path_of(*field)[0]);
                    }
                    false
                },
            },
        }
    }

    /// Overwrites `field` with `replacement`, whether or not it held a value,
    /// and reports whether it held one before. An attribute without an entry
    /// gets one at the end of its list.
    pub fn redact_field(&mut self, field: &LogFieldSelector, replacement: &str) -> (hit: bool)
        ensures
            *final(final(self).record) == *final(old(self).record),
            final(self).resource matches Some(r) ==> *final(r) == *final(old(self).resource.unwrap()),
            final(self).scope matches Some(s) ==> *final(s) == *final(old(self).scope.unwrap()),
            old(self)@.overwritten(final(self)@, *field, replacement@),
            hit == old(self)@.is_set(*field),
    {
        match field {
            LogFieldSelector::Simple(f) => match f {
                LogField::Body => {
                    let hit = self.record.body.is_some();
                    self.record.body = Some(string_value(replacement));
                    hit
                },
                LogField::SeverityText => {
                    let hit = !self.record.severity_text.as_str().is_empty();
                    self.record.severity_text = replacement.to_owned();
                    hit
                },
                LogField::TraceId => {
                    let hit = !self.record.trace_id.as_str().is_empty();
                    self.record.trace_id = replacement.to_owned();
                    hit
                },
                LogField::SpanId => {
                    let hit = !self.record.span_id.as_str().is_empty();
                    self.record.span_id = replacement.to_owned();
                    hit
                },
                LogField::EventName => {
                    let hit = !self.record.event_name.as_str().is_empty();
                    self.record.event_name = replacement.to_owned();
                    hit
                },
                _ => false,
            },
            LogFieldSelector::LogAttribute(path) => redact_attr(
                &mut self.record.attributes,
                path.as_slice(),
                replacement,
            ),
            LogFieldSelector::ResourceAttribute(path) => match &mut self.resource {
                Some(r) => redact_attr(&mut r.attributes, path.as_slice(), replacement),
                None => false,
            },
            LogFieldSelector::ScopeAttribute(path) => match &mut self.scope {
                Some(s) => redact_attr(&mut s.attributes, path.as_slice(), replacement),
                None => false,
            },
        }
    }

    /// Renames the attribute `from` to `to`. Only attributes can be renamed.
    ///
    /// Reports whether the source exists. With `upsert` unset, an existing
    /// entry under `to` blocks the rename: the call still reports `true`, and
    /// nothing changes.
    pub fn rename_field(&mut self, from: &LogFieldSelector, to: &str, upsert: bool) -> (ok: bool)
        ensures
            *final(final(self).record) == *final(old(self).record),
            final(self).resource matches Some(r) ==> *final(r) == *final(old(self).resource.unwrap()),
            final(self).scope matches Some(s) ==> *final(s) == *final(old(self).scope.unwrap()),
            old(self)@.renamed(final(self)@, *from, to@, upsert),
            ok == (!(*from is Simple) && old(self)@.is_set(*from)),
            !ok || (!upsert && has_key(old(self)@.attributes_of(*from), to@)) ==> final(self)@
                == old(self)@,
    {
        match from {
            LogFieldSelector::LogAttribute(path) => rename_attr(
                &mut self.record.attributes,
                path.as_slice(),
                to,
                upsert,
            ),
            LogFieldSelector::ResourceAttribute(path) => match &mut self.resource {
                Some(r) => rename_attr(&mut r.attributes, path.as_slice(), to, upsert),
                None => false,
            },
            LogFieldSelector::ScopeAttribute(path) => match &mut self.scope {
                Some(s) => rename_attr(&mut s.attributes, path.as_slice(), to, upsert),
                None => false,
            },
            _ => false,
        }
    }

    /// Gives `field` the value `value`.
    ///
    /// Reports whether the field can be written. With `upsert` unset, a field
    /// that already holds a value keeps it: the call still reports `true`, and
    /// nothing changes. Otherwise the value is stored, as a new attribute
    /// entry at the end where there was none.
    pub fn add_field(&mut self, field: &LogFieldSelector, value: &str, upsert: bool) -> (ok: bool)
        ensures
            *final(final(self).record) == *final(old(self).record),
            final(self).resource matches Some(r) ==> *final(r) == *final(old(self).resource.unwrap()),
            final(self).scope matches Some(s) ==> *final(s) == *final(old(self).scope.unwrap()),
            ok == old(self)@.is_writable(*field),
            !upsert && old(self)@.is_set(*field) ==> final(self)@ == old(self)@,
            upsert || !old(self)@.is_set(*field) ==> old(self)@.overwritten(
                final(self)@,
                *field,
                value@,
            ),
    {
        match field {
            LogFieldSelector::Simple(f) => match f {
                LogField::Body => {
                    if !upsert && self.record.body.is_some() {
                        return true;
                    }
                    self.record.body = Some(string_value(value));
                    true
                },
                LogField::SeverityText => {
                    if !upsert && !self.record.severity_text.as_str().is_empty() {
                        return true;
                    }
                    self.record.severity_text = value.to_owned();
                    true
                },
                LogField::TraceId => {
                    if !upsert && !self.record.trace_id.as_str().is_empty() {
                        return true;
                    }
                    self.record.trace_id = value.to_owned();
                    true
                },
                LogField::SpanId => {
                    if !upsert && !self.record.span_id.as_str().is_empty() {
                        return true;
                    }
                    self.record.span_id = value.to_owned();
                    true
                },
                LogField::EventName => {
                    if !upsert && !self.record.event_name.as_str().is_empty() {
                        return true;
                    }
                    self.record.event_name = value.to_owned();
                    true
                },
                _ => false,
            },
            LogFieldSelector::LogAttribute(path) => set_attr(
                &mut self.record.attributes,
                path.as_slice(),
                value,
                upsert,
            ),
            LogFieldSelector::ResourceAttribute(path) => match &mut self.resource {
                Some(r) => set_attr(&mut r.attributes, path.as_slice(), value, upsert),
                None => false,
            },
            LogFieldSelector::ScopeAttribute(path) => match &mut self.scope {
                Some(s) => set_attr(&mut s.attributes, path.as_slice(), value, upsert),
                None => false,
            },
        }
    }
}

// ─── Laws ────────────────────────────────────────────────────────────

/// The selector `field` reads what the edits store: any plain field but an
/// identifier that is decoded on reading, and any attribute with a path of
/// one key.
pub open spec fn reads_stored(state: LogSnapshot, field: LogFieldSelector) -> bool {
    match field {
        LogFieldSelector::Simple(f) => (f is TraceId || f is SpanId) ==> state.id_form is Verbatim,
        _ => path_of(field).len() == 1,
    }
}

/// What was written is what is read: after `field` is overwritten with
/// `value`, it reads as `value`, or as absent if `value` is empty.
pub proof fn law_overwritten_reads_back(
    before: LogSnapshot,
    after: LogSnapshot,
    field: LogFieldSelector,
    value: Seq<char>,
)
    requires
        before.overwritten(after, field, value),
        before.is_writable(field),
        reads_stored(before, field),
    ensures
        after.field(field) == present(value),
{
    match field {
        LogFieldSelector::Simple(_) => {},
        _ => {
            let path = path_of(field);
            law_set_reads_back(
                before.attributes_of(field),
                after.attributes_of(field),
                path[0],
                value,
                true,
            );
        },
    }
}

/// What was removed is gone: after a field of the record, or an attribute,
/// is removed, it reads as absent and holds no value.
pub proof fn law_removed_reads_absent(before: LogSnapshot, after: LogSnapshot, field: LogFieldSelector)
    requires
        before.removed(after, field),
        field matches LogFieldSelector::Simple(f) ==> is_record_field(f),
    ensures
        after.field(field) is None,
        !after.is_set(field),
{
    match field {
        LogFieldSelector::Simple(_) => {},
        _ => {
        },
    }
}

/// A rename that goes through carries the value along: the new key reads as
/// the old one did.
pub proof fn law_renamed_reads_back(
    before: LogSnapshot,
    after: LogSnapshot,
    field: LogFieldSelector,
    to: Seq<char>,
    upsert: bool,
)
    requires
        before.renamed(after, field, to, upsert),
        !(field is Simple),
        path_of(field).len() == 1,
        before.is_set(field),
        upsert || !has_key(before.attributes_of(field), to),
    ensures
        resolve(after.attributes_of(field), seq![to]) == before.field(field),
{
    let path = path_of(field);
    law_rename_moves_value(
        before.attributes_of(field),
        after.attributes_of(field),
        path[0],
        to,
        upsert,
    );
}

} // verus!
