//! Front end of a small endpoint-declaration DSL: collects the six metadata
//! fields of one HTTP-style API endpoint from an unordered list of
//! `(field name, literal)` pairs, type-checks each literal, and assembles the
//! validated, immutable [`metadata::Metadata`] record, or reports the first
//! violation found.

pub mod laws;
pub mod metadata;
