//! Discovery and validation of GTS identifiers embedded in documents.
//!
//! A GTS identifier is a chain of one or more `~`-terminated segments, each
//! segment being five dot-separated fields `vendor.package.namespace.type.version`,
//! with the first segment carrying the literal prefix `gts.`.  This crate
//! discovers candidate identifiers in Markdown text and in JSON/YAML value
//! trees, judges them against the identifier grammar and a vendor policy, and
//! folds the findings into a validation report.

pub mod candidate;
pub mod chain;
pub mod config;
pub mod error_type;
pub mod grammar;
pub mod json;
pub mod laws;
pub mod markdown;
pub mod node;
pub mod output;
pub mod report;
pub mod text;
pub mod validator;
pub mod vendor;
pub mod verror;
pub mod walker;
pub mod yaml;
