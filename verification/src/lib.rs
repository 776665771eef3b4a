//! Stream tabular (delimiter-separated) records, applying a regular-expression
//! find/replace to exactly one column of each record.
//!
//! The core decides which column to operate on (by name or numeric index, with
//! or without a header row, in text or raw-byte mode) and applies the
//! substitution record by record, passing every other field and the header row
//! through unchanged.
//!
//! - [`columns`] resolves a column spec to a zero-based index.
//! - [`pattern`] holds the compiled pattern of each mode and the field
//!   substitution.
//! - [`rows`] frames rows over bytes: sources, sinks and their delimiter.
//! - [`pipeline`] streams rows from source to sink, transforming the target
//!   column; its `run_string` and `run_bytes` are the whole run of each mode.
//! - [`errors`] is the single closed error enumeration all of them share.

pub mod columns;
pub mod errors;
pub mod pattern;
pub mod pipeline;
pub mod rows;
