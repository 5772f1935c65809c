use vstd::prelude::*;
use crate::model::{ChangeKind, DeltaKind, StatusFlags};
use crate::text::str_eq;

verus! {

/// The change kind for a porcelain status code. Exactly the codes `M`,
/// `A`, `D`, `R` and `??` are recognized; anything else is `Unknown`.
pub open spec fn spec_classify_porcelain(code: Seq<char>) -> ChangeKind {
    if code == "M"@ {
        ChangeKind::Modified
    } else if code == "A"@ {
        ChangeKind::Added
    } else if code == "D"@ {
        ChangeKind::Deleted
    } else if code == "R"@ {
        ChangeKind::Renamed
    } else if code == "??"@ {
        ChangeKind::Untracked
    } else {
        ChangeKind::Unknown
    }
}

/// Maps a porcelain status code to its change kind; an unrecognized code
/// maps to `Unknown` and never fails.
pub fn classify_porcelain(code: &str) -> (r: ChangeKind)
    ensures
        r == spec_classify_porcelain(code@),
{
    if str_eq(code, "M") {
        ChangeKind::Modified
    } else if str_eq(code, "A") {
        ChangeKind::Added
    } else if str_eq(code, "D") {
        ChangeKind::Deleted
    } else if str_eq(code, "R") {
        ChangeKind::Renamed
    } else if str_eq(code, "??") {
        ChangeKind::Untracked
    } else {
        ChangeKind::Unknown
    }
}

/// The change kind for a name-status code, as used between two committed
/// or staged snapshots; there is no untracked state there, so only `M`,
/// `A`, `D` and `R` are recognized.
pub open spec fn spec_classify_name_status(code: Seq<char>) -> ChangeKind {
    if code == "M"@ {
        ChangeKind::Modified
    } else if code == "A"@ {
        ChangeKind::Added
    } else if code == "D"@ {
        ChangeKind::Deleted
    } else if code == "R"@ {
        ChangeKind::Renamed
    } else {
        ChangeKind::Unknown
    }
}

/// Maps a name-status code to its change kind; an unrecognized code maps
/// to `Unknown` and never fails.
pub fn classify_name_status(code: &str) -> (r: ChangeKind)
    ensures
        r == spec_classify_name_status(code@),
{
    if str_eq(code, "M") {
        ChangeKind::Modified
    } else if str_eq(code, "A") {
        ChangeKind::Added
    } else if str_eq(code, "D") {
        ChangeKind::Deleted
    } else if str_eq(code, "R") {
        ChangeKind::Renamed
    } else {
        ChangeKind::Unknown
    }
}

/// The change kind for a structured tree-diff delta.
pub open spec fn spec_classify_delta(d: DeltaKind) -> ChangeKind {
    match d {
        DeltaKind::Added => ChangeKind::Added,
        DeltaKind::Deleted => ChangeKind::Deleted,
        DeltaKind::Modified => ChangeKind::Modified,
        DeltaKind::Renamed => ChangeKind::Renamed,
        DeltaKind::Other => ChangeKind::Unknown,
    }
}

/// Maps a structured tree-diff delta kind to its change kind; a delta of
/// any other sort maps to `Unknown` and never fails.
pub fn classify_delta(d: DeltaKind) -> (r: ChangeKind)
    ensures
        r == spec_classify_delta(d),
{
    match d {
        DeltaKind::Added => ChangeKind::Added,
        DeltaKind::Deleted => ChangeKind::Deleted,
        DeltaKind::Modified => ChangeKind::Modified,
        DeltaKind::Renamed => ChangeKind::Renamed,
        DeltaKind::Other => ChangeKind::Unknown,
    }
}

/// The change kind for a structured working-tree status entry. A path new
/// only in the working tree is untracked; a path new in the index is
/// added; otherwise renames, deletions and modifications are reported in
/// that order of precedence, whether staged or not.
pub open spec fn spec_classify_flags(f: StatusFlags) -> ChangeKind {
    if f.wt_new && !f.index_new {
        ChangeKind::Untracked
    } else if f.index_new {
        ChangeKind::Added
    } else if f.index_renamed || f.wt_renamed {
        ChangeKind::Renamed
    } else if f.index_deleted || f.wt_deleted {
        ChangeKind::Deleted
    } else if f.index_modified || f.wt_modified {
        ChangeKind::Modified
    } else {
        ChangeKind::Unknown
    }
}

/// Maps structured working-tree status flags to one change kind; flags
/// matching no known state map to `Unknown` and never fail.
pub fn classify_flags(f: StatusFlags) -> (r: ChangeKind)
    ensures
        r == spec_classify_flags(f),
{
    if f.wt_new && !f.index_new {
        ChangeKind::Untracked
    } else if f.index_new {
        ChangeKind::Added
    } else if f.index_renamed || f.wt_renamed {
        ChangeKind::Renamed
    } else if f.index_deleted || f.wt_deleted {
        ChangeKind::Deleted
    } else if f.index_modified || f.wt_modified {
        ChangeKind::Modified
    } else {
        ChangeKind::Unknown
    }
}

} // verus!
