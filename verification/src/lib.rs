//! A structured-data pretty-printer: a dynamically-typed value tree
//! (null, boolean, number, string, sequence, mapping) is rendered as
//! human-readable text in one of three notations — indented JSON, YAML,
//! or TOML — with notation-specific quoting, nesting and layout rules.
//!
//! Rendering is pure: each renderer turns a [`value::Value`] tree into a
//! sequence of [`value::Span`]s, pieces of text optionally tagged with a
//! semantic colour role. Writing the spans to a stream (and resolving
//! roles to concrete colours on a terminal) is left to the caller.

pub mod json;
pub mod text;
pub mod toml;
pub mod value;
pub mod yaml;
