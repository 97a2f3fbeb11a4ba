//! Runtime support for a typed object model with a canonical JSON wire
//! encoding: record types with per-field presence rules, builders that
//! enforce required fields, and a pipeline that turns typed service errors
//! into a transport-neutral envelope.
//!
//! The wire form is modelled by [`json::JsonValue`]; every record type
//! carries a verified encoder and a tolerant, verified decoder against it.
//! The definition model ([`names`], [`fields`], [`service`], [`error_def`],
//! [`query`]) is itself expressed with the same codec. The error pipeline
//! ([`errors`]) turns any value with the error capability into a
//! [`serializable_error::SerializableError`] envelope.

pub mod aliases;
pub mod base64;
pub mod client;
pub mod double_alias;
pub mod error_code;
pub mod error_def;
pub mod errors;
pub mod fields;
pub mod json;
pub mod names;
pub mod product;
pub mod query;
pub mod serializable_error;
pub mod service;
pub mod text;
pub mod uuid;
