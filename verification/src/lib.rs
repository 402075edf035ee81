//! Verified view-model projection layer for collaborative-object data.
//!
//! The library takes immutable snapshots of a domain model — issues, patches,
//! revisions, reviews, comments, reactions, merges — together with an alias
//! directory, and deterministically reshapes them into nested view documents.
//! Every transform is a pure function with a full functional contract: each
//! executable projection is proved to return the spec-level projection of the
//! deep views of its inputs, and the laws module states the properties that
//! hold of every input.

pub mod types;
pub mod json;
pub mod listing;
pub mod laws;
