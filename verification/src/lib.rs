//! Verified git introspection core: classification of change indicators,
//! parsers for the line-oriented output of a version-control command-line
//! tool, and a unified-diff renderer. All repository access (library calls
//! and subprocess invocations) happens outside this crate; every function
//! here is a pure computation on plain values.

pub mod branches;
pub mod changeset;
pub mod history;
pub mod model;
pub mod porcelain;
pub mod postprocess;
pub mod render;
pub mod show;
pub mod status;
pub mod text;

pub use model::{
    Branch, ChangeKind, Commit, CommitChanges, DeltaKind, FileChange, FileDiff, GitError,
    StatusFlags, spec_kind_label,
};
