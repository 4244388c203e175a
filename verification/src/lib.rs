//! Materializes strongly-typed configuration values from string-keyed raw
//! documents: a schema describes each field (target type, optionality,
//! secrecy, raw-type override); environment-variable placeholders of the
//! shape `${NAME:default}` are resolved in every string leaf against an
//! injected environment; the resolved document is then converted field by
//! field into a typed value, parsing booleans and integers and recursing
//! into nested documents.

pub mod convert;
pub mod doc;
pub mod env;
pub mod laws;
pub mod parse;
pub mod resolve;
pub mod schema;
pub mod text;

pub use resolve::Metadata;
pub use resolve::ReplaceEnv;
