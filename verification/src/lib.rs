//! A file-indexing library: it models a filesystem traversal with an
//! exclusion policy, builds searchable document records for regular files,
//! and reconstructs typed records from an external index's search results.

pub mod document;
pub mod facade;
pub mod indexer;
pub mod policy;
pub mod resolver;
