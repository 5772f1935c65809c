use repolens::branches::parse_branches;
use repolens::changeset::{
    attach_diffs, attach_diffs_or_unavailable, changes_from_deltas, changes_from_tree_paths,
};
use repolens::history::{commit_from_parts, parse_log};
use repolens::model::{ChangeKind, DeltaKind};
use repolens::porcelain::{
    no_changes_message, parse_name_status, parse_status_porcelain, plan_file_diff, status_of_file,
    DiffPlan,
};
use repolens::show::{commit_changes_from_outputs, parse_show_diffs};

#[test]
fn branches_with_one_head() {
    let out = "* main\n  dev\n  feature/x\n";
    let branches = parse_branches(out);
    assert_eq!(branches.len(), 3);
    assert_eq!(branches[0].name, "main");
    assert!(branches[0].is_head);
    assert!(!branches[0].is_remote);
    assert_eq!(branches[1].name, "dev");
    assert!(!branches[1].is_head);
    assert_eq!(branches[2].name, "feature/x");
    let heads = branches.iter().filter(|b| b.is_head).count();
    assert_eq!(heads, 1);
}

#[test]
fn branches_detached_head_has_no_head_entry() {
    let out = "  main\n  dev\n";
    let branches = parse_branches(out);
    assert_eq!(branches.len(), 2);
    let heads = branches.iter().filter(|b| b.is_head).count();
    assert_eq!(heads, 0);
}

#[test]
fn branches_empty_output() {
    assert_eq!(parse_branches("").len(), 0);
}

#[test]
fn log_two_commits_newest_first() {
    let out = "def456|Bob|1 day ago|Modify f.txt\nabc123|Alice|2 days ago|Add f.txt\n";
    let commits = parse_log(out);
    assert_eq!(commits.len(), 2);
    assert_eq!(commits[0].id, "def456");
    assert_eq!(commits[0].author, "Bob");
    assert_eq!(commits[0].date, "1 day ago");
    assert_eq!(commits[0].message, "Modify f.txt");
    assert_eq!(commits[1].id, "abc123");
    assert_eq!(commits[1].message, "Add f.txt");
}

#[test]
fn log_empty_repository_is_empty_not_error() {
    let commits = parse_log("");
    assert_eq!(commits.len(), 0);
}

#[test]
fn log_skips_malformed_lines() {
    let out = "not a commit line\nabc|Alice|now|msg\ntoo|many|parts|in|line\n";
    let commits = parse_log(out);
    assert_eq!(commits.len(), 1);
    assert_eq!(commits[0].id, "abc");
}

#[test]
fn log_is_idempotent() {
    let out = "abc123|Alice|2 days ago|Add f.txt\n";
    let first = parse_log(out);
    let second = parse_log(out);
    assert_eq!(first.len(), second.len());
    for (a, b) in first.iter().zip(second.iter()) {
        assert_eq!(a.id, b.id);
        assert_eq!(a.author, b.author);
        assert_eq!(a.date, b.date);
        assert_eq!(a.message, b.message);
    }
}

#[test]
fn commit_defaults_missing_fields_to_empty() {
    let c = commit_from_parts("abc".to_string(), None, None, None, 42);
    assert_eq!(c.id, "abc");
    assert_eq!(c.author, "");
    assert_eq!(c.email, "");
    assert_eq!(c.message, "");
    assert_eq!(c.timestamp, 42);
    let c = commit_from_parts(
        "abc".to_string(),
        Some("Alice".to_string()),
        Some("a@x".to_string()),
        Some("msg".to_string()),
        7,
    );
    assert_eq!(c.author, "Alice");
    assert_eq!(c.email, "a@x");
    assert_eq!(c.message, "msg");
}

#[test]
fn root_commit_reports_every_path_added() {
    let paths = vec!["f.txt".to_string(), "dir".to_string(), "dir/g.txt".to_string()];
    let changes = changes_from_tree_paths(&paths);
    assert_eq!(changes.len(), 3);
    for (c, p) in changes.iter().zip(paths.iter()) {
        assert_eq!(&c.path, p);
        assert_eq!(c.status, ChangeKind::Added);
    }
}

#[test]
fn deltas_classified_per_path() {
    let deltas = vec![("f.txt".to_string(), DeltaKind::Modified)];
    let changes = changes_from_deltas(&deltas);
    assert_eq!(changes.len(), 1);
    assert_eq!(changes[0].path, "f.txt");
    assert_eq!(changes[0].status, ChangeKind::Modified);
}

#[test]
fn rename_delta_is_one_entry_under_new_path() {
    let deltas = vec![("b.txt".to_string(), DeltaKind::Renamed)];
    let changes = changes_from_deltas(&deltas);
    assert_eq!(changes.len(), 1);
    assert_eq!(changes[0].path, "b.txt");
    assert_eq!(changes[0].status, ChangeKind::Renamed);
}

#[test]
fn porcelain_untracked_file_is_untracked() {
    let out = " M file.txt\n?? new.txt\n";
    let changes = parse_status_porcelain(out);
    assert_eq!(changes.len(), 2);
    assert_eq!(changes[0].path, "file.txt");
    assert_eq!(changes[0].status, ChangeKind::Modified);
    assert_eq!(changes[1].path, "new.txt");
    assert_eq!(changes[1].status, ChangeKind::Untracked);
}

#[test]
fn porcelain_rename_reports_new_path_once() {
    let out = "R  a.txt -> b.txt\n";
    let changes = parse_status_porcelain(out);
    assert_eq!(changes.len(), 1);
    assert_eq!(changes[0].path, "b.txt");
    assert_eq!(changes[0].status, ChangeKind::Renamed);
}

#[test]
fn porcelain_skips_short_lines() {
    let out = "\nM\n D gone.txt\n";
    let changes = parse_status_porcelain(out);
    assert_eq!(changes.len(), 1);
    assert_eq!(changes[0].path, "gone.txt");
    assert_eq!(changes[0].status, ChangeKind::Deleted);
}

#[test]
fn name_status_has_no_untracked() {
    let out = "M\tf.txt\nA\tnew.txt\n??\tx.txt\n";
    let changes = parse_name_status(out);
    assert_eq!(changes.len(), 3);
    assert_eq!(changes[0].status, ChangeKind::Modified);
    assert_eq!(changes[1].status, ChangeKind::Added);
    assert_eq!(changes[2].status, ChangeKind::Unknown);
}

#[test]
fn file_status_lookup() {
    let out = " M foo.txt\n?? bar.txt\n";
    assert_eq!(status_of_file(out, "foo.txt"), ChangeKind::Modified);
    assert_eq!(status_of_file(out, "bar.txt"), ChangeKind::Untracked);
    assert_eq!(status_of_file(out, "baz.txt"), ChangeKind::Unknown);
}

#[test]
fn diff_plan_per_status() {
    assert_eq!(plan_file_diff(ChangeKind::Unknown), DiffPlan::NoChanges);
    assert_eq!(plan_file_diff(ChangeKind::Untracked), DiffPlan::AgainstEmpty);
    assert_eq!(plan_file_diff(ChangeKind::Modified), DiffPlan::AgainstSnapshot);
    assert_eq!(plan_file_diff(ChangeKind::Added), DiffPlan::AgainstSnapshot);
    assert_eq!(plan_file_diff(ChangeKind::Deleted), DiffPlan::AgainstSnapshot);
    assert_eq!(no_changes_message(), "No changes detected for this file.");
}

#[test]
fn show_output_split_per_file() {
    let out = "diff --git a/a.txt b/a.txt\nindex 1..2 100644\n--- a/a.txt\n+++ b/a.txt\n+hello\ndiff --git a/b.txt b/b.txt\n-bye\n";
    let diffs = parse_show_diffs(out);
    assert_eq!(diffs.len(), 2);
    assert_eq!(diffs[0].path, "a.txt");
    assert_eq!(
        diffs[0].diff,
        "diff --git a/a.txt b/a.txt\nindex 1..2 100644\n--- a/a.txt\n+++ b/a.txt\n+hello"
    );
    assert_eq!(diffs[0].status, ChangeKind::Modified);
    assert_eq!(diffs[1].path, "b.txt");
    assert_eq!(diffs[1].diff, "diff --git a/b.txt b/b.txt\n-bye");
    assert_eq!(diffs[1].status, ChangeKind::Modified);
}

#[test]
fn show_output_classifies_each_block() {
    let out = "diff --git a/new.txt b/new.txt\nnew file mode 100644\nindex 0000000..e69de29\n--- /dev/null\n+++ b/new.txt\n+hi\ndiff --git a/gone.txt b/gone.txt\ndeleted file mode 100644\nindex e69de29..0000000\n--- a/gone.txt\n+++ /dev/null\n-bye\ndiff --git a/a.txt b/b.txt\nsimilarity index 100%\nrename from a.txt\nrename to b.txt\ndiff --git a/f.txt b/f.txt\nindex 1..2 100644\n--- a/f.txt\n+++ b/f.txt\n-old\n+new\n";
    let diffs = parse_show_diffs(out);
    assert_eq!(diffs.len(), 4);
    assert_eq!(diffs[0].path, "new.txt");
    assert_eq!(diffs[0].status, ChangeKind::Added);
    assert_eq!(diffs[1].path, "gone.txt");
    assert_eq!(diffs[1].status, ChangeKind::Deleted);
    assert_eq!(diffs[2].path, "b.txt");
    assert_eq!(diffs[2].status, ChangeKind::Renamed);
    assert_eq!(diffs[3].path, "f.txt");
    assert_eq!(diffs[3].status, ChangeKind::Modified);
}

#[test]
fn show_output_content_lines_do_not_reclassify() {
    let out = "diff --git a/f.txt b/f.txt\nindex 1..2 100644\n--- a/f.txt\n+++ b/f.txt\n+new file mode is mentioned here\n";
    let diffs = parse_show_diffs(out);
    assert_eq!(diffs.len(), 1);
    assert_eq!(diffs[0].status, ChangeKind::Modified);
}

#[test]
fn show_output_ignores_preamble() {
    let out = "commit chatter\nmore chatter\ndiff --git a/x b/x\n+1\n";
    let diffs = parse_show_diffs(out);
    assert_eq!(diffs.len(), 1);
    assert_eq!(diffs[0].path, "x");
    assert_eq!(diffs[0].diff, "diff --git a/x b/x\n+1");
    assert_eq!(diffs[0].status, ChangeKind::Modified);
}

#[test]
fn show_output_empty_means_no_diffs() {
    assert_eq!(parse_show_diffs("").len(), 0);
}

#[test]
fn commit_change_set_from_header() {
    let header = "abcdef0123456789\nSubject line\nAlice\n2024-01-01T00:00:00+00:00\n";
    let diffs = parse_show_diffs("diff --git a/f b/f\n+x\n");
    let set = commit_changes_from_outputs("abcdef0".to_string(), header, diffs);
    assert_eq!(set.id, "abcdef0");
    assert_eq!(set.message, "Subject line");
    assert_eq!(set.author, "Alice");
    assert_eq!(set.date, "2024-01-01T00:00:00+00:00");
    assert_eq!(set.changes.len(), 1);
    assert_eq!(set.changes[0].path, "f");
}

#[test]
fn commit_change_set_short_header() {
    let set = commit_changes_from_outputs("id".to_string(), "onlyhash\n", Vec::new());
    assert_eq!(set.id, "id");
    assert_eq!(set.message, "");
    assert_eq!(set.author, "");
    assert_eq!(set.date, "");
}

#[test]
fn attach_diffs_pairs_in_order() {
    let changes = parse_status_porcelain(" M a.txt\n D b.txt\n");
    let diffs = vec!["diff-a".to_string(), "diff-b".to_string()];
    let full = attach_diffs(&changes, &diffs);
    assert_eq!(full.len(), 2);
    assert_eq!(full[0].path, "a.txt");
    assert_eq!(full[0].status, ChangeKind::Modified);
    assert_eq!(full[0].diff, "diff-a");
    assert_eq!(full[1].path, "b.txt");
    assert_eq!(full[1].diff, "diff-b");
}

#[test]
fn unreadable_diff_reported_unavailable_not_dropped() {
    let changes = parse_status_porcelain(" M a.txt\n D b.txt\n");
    let diffs = vec![Some("diff-a".to_string()), None];
    let full = attach_diffs_or_unavailable(&changes, &diffs);
    assert_eq!(full.len(), 2);
    assert_eq!(full[0].path, "a.txt");
    assert_eq!(full[0].status, ChangeKind::Modified);
    assert_eq!(full[0].diff, "diff-a");
    assert_eq!(full[1].path, "b.txt");
    assert_eq!(full[1].status, ChangeKind::Unknown);
    assert_eq!(full[1].diff, "");
}

#[test]
fn status_parse_is_idempotent() {
    let out = " M a.txt\n?? b.txt\n";
    let first = parse_status_porcelain(out);
    let second = parse_status_porcelain(out);
    assert_eq!(first.len(), second.len());
    for (a, b) in first.iter().zip(second.iter()) {
        assert_eq!(a.path, b.path);
        assert_eq!(a.status, b.status);
    }
}
