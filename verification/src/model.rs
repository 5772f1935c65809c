use vstd::prelude::*;

verus! {

/// The canonical kinds of per-path change reported by every backend.
#[derive(Clone, Copy, Debug, PartialEq, Eq, Structural)]
pub enum ChangeKind {
    Added,
    Deleted,
    Modified,
    Renamed,
    Untracked,
    Unknown,
}

/// The label used for a change kind in serialized results.
pub open spec fn spec_kind_label(k: ChangeKind) -> Seq<char> {
    match k {
        ChangeKind::Added => "Added"@,
        ChangeKind::Deleted => "Deleted"@,
        ChangeKind::Modified => "Modified"@,
        ChangeKind::Renamed => "Renamed"@,
        ChangeKind::Untracked => "Untracked"@,
        ChangeKind::Unknown => "Unknown"@,
    }
}

impl ChangeKind {
    /// The display label of this kind.
    pub fn label(&self) -> (r: String)
        ensures
            r@ == spec_kind_label(*self),
    {
        match self {
            ChangeKind::Added => "Added".to_owned(),
            ChangeKind::Deleted => "Deleted".to_owned(),
            ChangeKind::Modified => "Modified".to_owned(),
            ChangeKind::Renamed => "Renamed".to_owned(),
            ChangeKind::Untracked => "Untracked".to_owned(),
            ChangeKind::Unknown => "Unknown".to_owned(),
        }
    }
}

/// One branch of a repository, as enumerated from its refs.
#[derive(Clone, Debug)]
pub struct Branch {
    pub name: String,
    pub is_remote: bool,
    pub is_head: bool,
}

/// One commit, read from history traversal. Identity is the id.
#[derive(Clone, Debug)]
pub struct Commit {
    pub id: String,
    pub author: String,
    pub email: String,
    pub message: String,
    pub timestamp: i64,
}

/// One changed path together with its change kind.
#[derive(Clone, Debug)]
pub struct FileChange {
    pub path: String,
    pub status: ChangeKind,
}

/// One changed path with its unified-diff text (may be empty).
#[derive(Clone, Debug)]
pub struct FileDiff {
    pub path: String,
    pub status: ChangeKind,
    pub diff: String,
}

/// A commit header together with the per-file diffs of that commit.
#[derive(Clone, Debug)]
pub struct CommitChanges {
    pub id: String,
    pub message: String,
    pub author: String,
    pub date: String,
    pub changes: Vec<FileDiff>,
}

/// The raw delta kind reported by a structured tree-to-tree diff.
#[derive(Clone, Copy, Debug, PartialEq, Eq, Structural)]
pub enum DeltaKind {
    Added,
    Deleted,
    Modified,
    Renamed,
    Other,
}

/// The raw per-path flags reported by a structured working-tree status
/// query: one flag per (index, working tree) x (new, modified, deleted,
/// renamed) combination.
#[derive(Clone, Copy, Debug, PartialEq, Eq, Structural)]
pub struct StatusFlags {
    pub index_new: bool,
    pub index_modified: bool,
    pub index_deleted: bool,
    pub index_renamed: bool,
    pub wt_new: bool,
    pub wt_modified: bool,
    pub wt_deleted: bool,
    pub wt_renamed: bool,
}

/// Typed failures of the introspection queries.
#[derive(Clone, Debug)]
pub enum GitError {
    RepositoryNotFound,
    RefNotFound,
    CommitNotFound,
    TreeReadError,
    DiffToolError(String),
    EncodingError,
}

impl GitError {
    /// A short human-readable description of the failure.
    pub fn message(&self) -> (r: String)
        ensures
            self is RepositoryNotFound ==> r@ == "Failed to open repository"@,
            self is RefNotFound ==> r@ == "reference not found"@,
            self is CommitNotFound ==> r@ == "commit not found"@,
            self is TreeReadError ==> r@ == "failed to read tree object"@,
            self is DiffToolError ==> r@ == "diff tool failed: "@ + self->DiffToolError_0@,
            self is EncodingError ==> r@ == "output was not valid text"@,
    {
        match self {
            GitError::RepositoryNotFound => "Failed to open repository".to_owned(),
            GitError::RefNotFound => "reference not found".to_owned(),
            GitError::CommitNotFound => "commit not found".to_owned(),
            GitError::TreeReadError => "failed to read tree object".to_owned(),
            GitError::DiffToolError(detail) => {
                let mut r = "diff tool failed: ".to_owned();
                r.append(detail.as_str());
                r
            },
            GitError::EncodingError => "output was not valid text".to_owned(),
        }
    }
}

} // verus!
