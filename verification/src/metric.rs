//! The metric adapter: a metric with the attributes of its first data point,
//! read through selectors. Metrics are never edited.

use std::borrow::Cow;
use vstd::prelude::*;
use crate::attrs::{
    cow_view, find_attribute_path, non_empty, path_keys, present, resolve, resource_attributes,
    resource_attrs, scope_attributes, scope_attrs,
};
use crate::otel::{
    temporality, type_tag, InstrumentationScope, KeyValue, Metric, Resource,
};
use crate::selector::{MetricField, MetricFieldSelector};

verus! {

/// A metric under evaluation. `datapoint_attributes` stands for the metric's
/// data points: the attributes of the first one.
pub struct MetricContext<'a> {
    pub metric: &'a Metric,
    pub datapoint_attributes: &'a [KeyValue],
    pub resource: Option<&'a Resource>,
    pub scope: Option<&'a InstrumentationScope>,
    pub resource_schema_url: &'a str,
    pub scope_schema_url: &'a str,
}

/// What a metric context refers to, as plain values.
pub struct MetricSnapshot {
    pub metric: Metric,
    pub datapoint_attributes: Seq<KeyValue>,
    pub resource: Option<Resource>,
    pub scope: Option<InstrumentationScope>,
    pub resource_schema_url: Seq<char>,
    pub scope_schema_url: Seq<char>,
}

impl<'a> View for MetricContext<'a> {
    type V = MetricSnapshot;

    open spec fn view(&self) -> MetricSnapshot {
        MetricSnapshot {
            metric: *self.metric,
            datapoint_attributes: self.datapoint_attributes@,
            resource: match self.resource {
                Some(r) => Some(*r),
                None => None,
            },
            scope: match self.scope {
                Some(s) => Some(*s),
                None => None,
            },
            resource_schema_url: self.resource_schema_url@,
            scope_schema_url: self.scope_schema_url@,
        }
    }
}

impl MetricSnapshot {
    /// What the plain field `f` reads as.
    pub open spec fn simple(self, f: MetricField) -> Option<Seq<char>> {
        match f {
            MetricField::Name => present(self.metric.name@),
            MetricField::Description => present(self.metric.description@),
            MetricField::Unit => present(self.metric.unit@),
            MetricField::ScopeName => match self.scope {
                Some(s) => present(s.name@),
                None => None,
            },
            MetricField::ScopeVersion => match self.scope {
                Some(s) => present(s.version@),
                None => None,
            },
            MetricField::ResourceSchemaUrl => present(self.resource_schema_url),
            MetricField::ScopeSchemaUrl => present(self.scope_schema_url),
            MetricField::Unspecified => None,
        }
    }

    /// What the selector `field` reads as.
    pub open spec fn field(self, field: MetricFieldSelector) -> Option<Seq<char>> {
        match field {
            MetricFieldSelector::Simple(f) => self.simple(f),
            MetricFieldSelector::DatapointAttribute(path) => resolve(
                self.datapoint_attributes,
                path_keys(path@),
            ),
            MetricFieldSelector::ResourceAttribute(path) => resolve(
                resource_attributes(self.resource),
                path_keys(path@),
            ),
            MetricFieldSelector::ScopeAttribute(path) => resolve(
                scope_attributes(self.scope),
                path_keys(path@),
            ),
            MetricFieldSelector::Type => match self.metric.data {
                Some(data) => Some(type_tag(data)),
                None => None,
            },
            MetricFieldSelector::Temporality => match self.metric.data {
                Some(data) => temporality(data),
                None => None,
            },
        }
    }
}

impl<'a> MetricContext<'a> {
    /// Reads `field`.
    pub fn get_field(&self, field: &MetricFieldSelector) -> (r: Option<Cow<'_, str>>)
        ensures
            cow_view(r) == self@.field(*field),
    {
        match field {
            MetricFieldSelector::Simple(f) => match f {
                MetricField::Name => non_empty(self.metric.name.as_str()),
                MetricField::Description => non_empty(self.metric.description.as_str()),
                MetricField::Unit => non_empty(self.metric.unit.as_str()),
                MetricField::ScopeName => match self.scope {
                    Some(s) => non_empty(s.name.as_str()),
                    None => None,
                },
                MetricField::ScopeVersion => match self.scope {
                    Some(s) => non_empty(s.version.as_str()),
                    None => None,
                },
                MetricField::ResourceSchemaUrl => non_empty(self.resource_schema_url),
                MetricField::ScopeSchemaUrl => non_empty(self.scope_schema_url),
                _ => None,
            },
            MetricFieldSelector::DatapointAttribute(path) => find_attribute_path(
                self.datapoint_attributes,
                path.as_slice(),
            ),
            MetricFieldSelector::ResourceAttribute(path) => find_attribute_path(
                resource_attrs(self.resource),
                path.as_slice(),
            ),
            MetricFieldSelector::ScopeAttribute(path) => find_attribute_path(
                scope_attrs(self.scope),
                path.as_slice(),
            ),
            MetricFieldSelector::Type => match &self.metric.data {
                Some(data) => Some(Cow::Borrowed(data.metric_type())),
                None => None,
            },
            MetricFieldSelector::Temporality => match &self.metric.data {
                Some(data) => match data.aggregation_temporality() {
                    Some(tag) => Some(Cow::Borrowed(tag)),
                    None => None,
                },
                None => None,
            },
        }
    }
}

} // verus!
