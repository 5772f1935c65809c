use repolens::model::{ChangeKind, DeltaKind, GitError, StatusFlags};
use repolens::status::{classify_delta, classify_flags, classify_name_status, classify_porcelain};

fn flags(
    index_new: bool,
    index_modified: bool,
    index_deleted: bool,
    index_renamed: bool,
    wt_new: bool,
    wt_modified: bool,
    wt_deleted: bool,
    wt_renamed: bool,
) -> StatusFlags {
    StatusFlags {
        index_new,
        index_modified,
        index_deleted,
        index_renamed,
        wt_new,
        wt_modified,
        wt_deleted,
        wt_renamed,
    }
}

#[test]
fn porcelain_codes() {
    assert_eq!(classify_porcelain("M"), ChangeKind::Modified);
    assert_eq!(classify_porcelain("A"), ChangeKind::Added);
    assert_eq!(classify_porcelain("D"), ChangeKind::Deleted);
    assert_eq!(classify_porcelain("R"), ChangeKind::Renamed);
    assert_eq!(classify_porcelain("??"), ChangeKind::Untracked);
    assert_eq!(classify_porcelain("XY"), ChangeKind::Unknown);
    assert_eq!(classify_porcelain(""), ChangeKind::Unknown);
}

#[test]
fn name_status_codes() {
    assert_eq!(classify_name_status("M"), ChangeKind::Modified);
    assert_eq!(classify_name_status("A"), ChangeKind::Added);
    assert_eq!(classify_name_status("D"), ChangeKind::Deleted);
    assert_eq!(classify_name_status("R"), ChangeKind::Renamed);
    assert_eq!(classify_name_status("??"), ChangeKind::Unknown);
}

#[test]
fn delta_kinds() {
    assert_eq!(classify_delta(DeltaKind::Added), ChangeKind::Added);
    assert_eq!(classify_delta(DeltaKind::Deleted), ChangeKind::Deleted);
    assert_eq!(classify_delta(DeltaKind::Modified), ChangeKind::Modified);
    assert_eq!(classify_delta(DeltaKind::Renamed), ChangeKind::Renamed);
    assert_eq!(classify_delta(DeltaKind::Other), ChangeKind::Unknown);
}

#[test]
fn status_flags_mapping() {
    let untracked = flags(false, false, false, false, true, false, false, false);
    assert_eq!(classify_flags(untracked), ChangeKind::Untracked);
    let staged_new = flags(true, false, false, false, false, false, false, false);
    assert_eq!(classify_flags(staged_new), ChangeKind::Added);
    let modified = flags(false, false, false, false, false, true, false, false);
    assert_eq!(classify_flags(modified), ChangeKind::Modified);
    let staged_modified = flags(false, true, false, false, false, false, false, false);
    assert_eq!(classify_flags(staged_modified), ChangeKind::Modified);
    let deleted = flags(false, false, false, false, false, false, true, false);
    assert_eq!(classify_flags(deleted), ChangeKind::Deleted);
    let renamed = flags(false, false, false, true, false, false, false, false);
    assert_eq!(classify_flags(renamed), ChangeKind::Renamed);
    let nothing = flags(false, false, false, false, false, false, false, false);
    assert_eq!(classify_flags(nothing), ChangeKind::Unknown);
}

#[test]
fn kind_labels() {
    assert_eq!(ChangeKind::Added.label(), "Added");
    assert_eq!(ChangeKind::Deleted.label(), "Deleted");
    assert_eq!(ChangeKind::Modified.label(), "Modified");
    assert_eq!(ChangeKind::Renamed.label(), "Renamed");
    assert_eq!(ChangeKind::Untracked.label(), "Untracked");
    assert_eq!(ChangeKind::Unknown.label(), "Unknown");
}

#[test]
fn error_messages() {
    assert_eq!(GitError::RepositoryNotFound.message(), "Failed to open repository");
    assert_eq!(GitError::RefNotFound.message(), "reference not found");
    assert_eq!(GitError::CommitNotFound.message(), "commit not found");
    assert_eq!(GitError::TreeReadError.message(), "failed to read tree object");
    assert_eq!(
        GitError::DiffToolError("boom".to_string()).message(),
        "diff tool failed: boom"
    );
    assert_eq!(GitError::EncodingError.message(), "output was not valid text");
}
