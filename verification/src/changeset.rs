use vstd::prelude::*;
use crate::model::{ChangeKind, DeltaKind, FileChange, FileDiff, StatusFlags};
use crate::status::{classify_delta, classify_flags, spec_classify_delta, spec_classify_flags};

verus! {

/// The per-path changes of a commit with a parent, classified from the
/// deltas of a structured tree-to-tree diff. Each delta carries the new
/// path, so a rename yields one entry under its new path.
pub fn changes_from_deltas(deltas: &Vec<(String, DeltaKind)>) -> (r: Vec<FileChange>)
    ensures
        r@.len() == deltas@.len(),
        forall|i: int|
            0 <= i < r@.len() ==> r@[i].path@ == deltas@[i].0@ && r@[i].status
                == spec_classify_delta(deltas@[i].1),
{
    let mut r: Vec<FileChange> = Vec::new();
    let mut i: usize = 0;
    while i < deltas.len()
        invariant
            i <= deltas@.len(),
            r@.len() == i,
            forall|j: int|
                0 <= j < i ==> r@[j].path@ == deltas@[j].0@ && r@[j].status
                    == spec_classify_delta(deltas@[j].1),
        decreases deltas@.len() - i,
    {
        let status = classify_delta(deltas[i].1);
        r.push(FileChange { path: deltas[i].0.clone(), status });
        i += 1;
    }
    r
}

/// The per-path changes of a root commit: every path of its tree is
/// reported, each classified `Added`.
pub fn changes_from_tree_paths(paths: &Vec<String>) -> (r: Vec<FileChange>)
    ensures
        r@.len() == paths@.len(),
        forall|i: int|
            0 <= i < r@.len() ==> r@[i].path@ == paths@[i]@ && r@[i].status == ChangeKind::Added,
{
    let mut r: Vec<FileChange> = Vec::new();
    let mut i: usize = 0;
    while i < paths.len()
        invariant
            i <= paths@.len(),
            r@.len() == i,
            forall|j: int|
                0 <= j < i ==> r@[j].path@ == paths@[j]@ && r@[j].status == ChangeKind::Added,
        decreases paths@.len() - i,
    {
        r.push(FileChange { path: paths[i].clone(), status: ChangeKind::Added });
        i += 1;
    }
    r
}

/// A root commit reports the set of all paths of its tree, each `Added`:
/// the changes carry exactly the given paths, in order, and no other kind
/// occurs.
pub proof fn lemma_root_commit_all_added(paths: Seq<Seq<char>>, changes: Seq<FileChange>)
    requires
        changes.len() == paths.len(),
        forall|i: int|
            0 <= i < changes.len() ==> changes[i].path@ == paths[i] && changes[i].status
                == ChangeKind::Added,
    ensures
        changes.map_values(|c: FileChange| c.path@) =~= paths,
        forall|i: int| 0 <= i < changes.len() ==> changes[i].status == ChangeKind::Added,
{
    assert forall|i: int| 0 <= i < changes.len() implies changes[i].status
        == ChangeKind::Added by {
        assert(changes[i].path@ == paths[i]);
    }
}

/// The root-commit special case agrees with diffing against an empty
/// tree: deltas that report every path of the tree as `Added` yield the
/// same change list as the full tree traversal of the same paths.
pub proof fn lemma_empty_tree_diff_matches_walk(
    diffed: Seq<FileChange>,
    walked: Seq<FileChange>,
    paths: Seq<Seq<char>>,
)
    requires
        diffed.len() == paths.len(),
        forall|i: int|
            0 <= i < diffed.len() ==> diffed[i].path@ == paths[i] && diffed[i].status
                == spec_classify_delta(DeltaKind::Added),
        walked.len() == paths.len(),
        forall|i: int|
            0 <= i < walked.len() ==> walked[i].path@ == paths[i] && walked[i].status
                == ChangeKind::Added,
    ensures
        diffed.len() == walked.len(),
        forall|i: int|
            0 <= i < diffed.len() ==> diffed[i].path@ == walked[i].path@ && diffed[i].status
                == walked[i].status,
{
    assert forall|i: int|
        0 <= i < diffed.len() implies diffed[i].path@ == walked[i].path@ && diffed[i].status
        == walked[i].status by {
        assert(diffed[i].path@ == paths[i]);
        assert(walked[i].path@ == paths[i]);
    }
}

/// The per-path changes of a structured working-tree status query, one
/// entry per reported path, classified from its status flags.
pub fn changes_from_status_entries(entries: &Vec<(String, StatusFlags)>) -> (r: Vec<FileChange>)
    ensures
        r@.len() == entries@.len(),
        forall|i: int|
            0 <= i < r@.len() ==> r@[i].path@ == entries@[i].0@ && r@[i].status
                == spec_classify_flags(entries@[i].1),
{
    let mut r: Vec<FileChange> = Vec::new();
    let mut i: usize = 0;
    while i < entries.len()
        invariant
            i <= entries@.len(),
            r@.len() == i,
            forall|j: int|
                0 <= j < i ==> r@[j].path@ == entries@[j].0@ && r@[j].status
                    == spec_classify_flags(entries@[j].1),
        decreases entries@.len() - i,
    {
        let status = classify_flags(entries[i].1);
        r.push(FileChange { path: entries[i].0.clone(), status });
        i += 1;
    }
    r
}

/// Pairs each change with the diff computed for it, in order. An entry
/// whose diff text could not be read is reported as unavailable — kind
/// `Unknown`, empty body — rather than hiding the rest of the list.
pub fn attach_diffs_or_unavailable(changes: &Vec<FileChange>, diffs: &Vec<Option<String>>) -> (r:
    Vec<FileDiff>)
    requires
        changes@.len() == diffs@.len(),
    ensures
        r@.len() == changes@.len(),
        forall|i: int|
            0 <= i < r@.len() ==> r@[i].path@ == changes@[i].path@ && (match diffs@[i] {
                Some(d) => r@[i].status == changes@[i].status && r@[i].diff@ == d@,
                None => r@[i].status == ChangeKind::Unknown && r@[i].diff@.len() == 0,
            }),
{
    let mut r: Vec<FileDiff> = Vec::new();
    let mut i: usize = 0;
    while i < changes.len()
        invariant
            i <= changes@.len(),
            changes@.len() == diffs@.len(),
            r@.len() == i,
            forall|j: int|
                0 <= j < i ==> r@[j].path@ == changes@[j].path@ && (match diffs@[j] {
                    Some(d) => r@[j].status == changes@[j].status && r@[j].diff@ == d@,
                    None => r@[j].status == ChangeKind::Unknown && r@[j].diff@.len() == 0,
                }),
        decreases changes@.len() - i,
    {
        let entry = match &diffs[i] {
            Some(d) => FileDiff {
                path: changes[i].path.clone(),
                status: changes[i].status,
                diff: d.clone(),
            },
            None => FileDiff {
                path: changes[i].path.clone(),
                status: ChangeKind::Unknown,
                diff: String::new(),
            },
        };
        r.push(entry);
        i += 1;
    }
    r
}

/// Pairs each change with the diff text computed for it, in order.
pub fn attach_diffs(changes: &Vec<FileChange>, diffs: &Vec<String>) -> (r: Vec<FileDiff>)
    requires
        changes@.len() == diffs@.len(),
    ensures
        r@.len() == changes@.len(),
        forall|i: int|
            0 <= i < r@.len() ==> r@[i].path@ == changes@[i].path@ && r@[i].status
                == changes@[i].status && r@[i].diff@ == diffs@[i]@,
{
    let mut r: Vec<FileDiff> = Vec::new();
    let mut i: usize = 0;
    while i < changes.len()
        invariant
            i <= changes@.len(),
            changes@.len() == diffs@.len(),
            r@.len() == i,
            forall|j: int|
                0 <= j < i ==> r@[j].path@ == changes@[j].path@ && r@[j].status
                    == changes@[j].status && r@[j].diff@ == diffs@[j]@,
        decreases changes@.len() - i,
    {
        r.push(
            FileDiff {
                path: changes[i].path.clone(),
                status: changes[i].status,
                diff: diffs[i].clone(),
            },
        );
        i += 1;
    }
    r
}

} // verus!
