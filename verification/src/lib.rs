//! Field resolution and mutation for OpenTelemetry-shaped telemetry.
//!
//! A policy engine addresses the fields of log, metric and trace records
//! through selectors. This crate resolves such selectors to string views of a
//! record and applies the edits a policy may ask for: remove, redact, rename
//! and add. Every function carries a contract over the sequence models of the
//! data it touches, and the laws that relate the functions are proved beside
//! them.
//!
//! - [`otel`]: the records, and the shape of a metric's payload
//! - [`selector`]: how a policy names a field
//! - [`attrs`]: attribute lists, lookup by key path, and their edits
//! - [`codec`]: identifiers that travel as base64
//! - [`log`], [`metric`], [`trace`]: one adapter for each signal
//! - [`tracestate`], [`tracestate_laws`]: the sampling threshold in the W3C
//!   tracestate
//! - [`flat`], [`decision`]: flat records and the report of a decision
//! - [`json`], [`text`]: what is taken on trust of `serde_json` and of strings

pub mod attrs;
pub mod codec;
pub mod decision;
pub mod flat;
pub mod json;
pub mod log;
pub mod metric;
pub mod otel;
pub mod selector;
pub mod text;
pub mod trace;
pub mod tracestate;
pub mod tracestate_laws;
