//! What becomes of a compiled document: the metadata that its authors tagged
//! it with, the answers to queries on it, and the reports of what the
//! compiler had to say.
//!
//! - [`value`] holds the values of the document language and [`content`] the
//!   snapshots that a query hands out.
//! - [`metadata`] holds the metadata tag and the record that a document keeps
//!   of its tags, in document order.
//! - [`query`] retrieves what a selector matched, checks it against the
//!   number of matches asked for, and writes it as JSON or YAML by way of
//!   [`encode`] and [`json`].
//! - [`diag`] resolves the spans of diagnostics against a source database and
//!   lays the diagnostics out as a report.
//! - [`run`] decides the course of one compile-and-query run.
//!
//! The library does no input or output of its own. Its caller owns the
//! compiler, the files and the streams.

pub mod content;
pub mod diag;
pub mod encode;
pub mod json;
pub mod metadata;
pub mod query;
pub mod run;
pub mod text;
pub mod value;
