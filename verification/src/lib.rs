//! Column-level schema resolution for data-transformation models.
//!
//! A build manifest names models, each with compiled query text and an
//! optional set of declared columns.  This library determines, for each
//! model, the authoritative ordered column list by merging three sources:
//! columns declared in the manifest, columns parsed out of the compiled
//! query's projection list, and columns introspected from a database
//! catalog.  Manifest decoding, database access, and file output live
//! outside the library; it works on plain values and is fully verified.

pub mod adapter;
pub mod emit;
pub mod extract;
pub mod laws;
pub mod pipeline;
pub mod resolve;
pub mod schema;
pub mod text;
pub mod token;
