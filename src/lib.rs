//! Concatenation of Mondrian schema fragments into one schema document.
//!
//! Fragments are scanned for tag markers as plain text: no markup parser is
//! involved. Each fragment yields an optional schema name and optional spans of
//! shared dimensions, cubes and virtual cubes; the merger checks that at most
//! one schema name is declared and reassembles the spans category by category.

pub mod scan;
pub mod fragment;
pub mod merge;

pub use fragment::Fragment;
pub use merge::{fragments_to_schema, SchemaError};
