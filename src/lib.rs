//! Inspection and rewriting of columnar table files.
//!
//! The library holds a plain model of a file's metadata, renders it as a
//! generic document, aggregates column sizes over row groups, decides which
//! fields a projection keeps and when a preview stops, and checks that the
//! inputs of a rewrite share one schema before the rewrite is planned.
//! Reading and writing the files themselves is done by the caller.

pub mod inspector;
pub mod metadata;
pub mod modifier;
pub mod projection;
pub mod sizes;
pub mod value;
