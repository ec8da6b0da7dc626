//! A verified editor for package manifest files.
//!
//! The crate loads a manifest document into a format-preserving store,
//! mutates single fields in place (exclusion patterns, keyword and category
//! lists, badge tables, nested metadata, package scalars), validates the
//! document against a fixed rule set, and serializes it back without
//! touching anything it did not edit.
pub mod commands;
pub mod jsonval;
pub mod listfield;
pub mod manifest;
pub mod report;
pub mod text;
pub mod model;
pub mod store;
pub mod utils;
