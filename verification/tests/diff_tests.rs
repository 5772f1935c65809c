use repolens::model::GitError;
use repolens::postprocess::{external_diff_outcome, hunks_only, normalize_diff};
use repolens::render::render_diff;

#[test]
fn untracked_file_shows_all_lines_added() {
    let diff = render_diff(None, Some("hi\n"), 3, "new.txt");
    assert_eq!(diff, "--- /dev/null\n+++ b/new.txt\n@@ -0,0 +1,1 @@\n+hi\n");
}

#[test]
fn absent_base_multiline_all_added() {
    let diff = render_diff(None, Some("one\ntwo\n"), 3, "n.txt");
    assert_eq!(diff, "--- /dev/null\n+++ b/n.txt\n@@ -0,0 +1,2 @@\n+one\n+two\n");
}

#[test]
fn deleted_file_shows_all_lines_removed() {
    let diff = render_diff(Some("x\n"), None, 3, "old.txt");
    assert_eq!(diff, "--- a/old.txt\n+++ /dev/null\n@@ -1,1 +0,0 @@\n-x\n");
}

#[test]
fn equal_contents_render_empty() {
    let diff = render_diff(Some("same\nlines\n"), Some("same\nlines\n"), 3, "f.txt");
    assert_eq!(diff, "");
}

#[test]
fn single_line_modification_with_context() {
    let base = "a\nb\nc\n";
    let target = "a\nx\nc\n";
    let diff = render_diff(Some(base), Some(target), 3, "f.txt");
    assert_eq!(
        diff,
        "--- a/f.txt\n+++ b/f.txt\n@@ -1,3 +1,3 @@\n a\n-b\n+x\n c\n"
    );
}

#[test]
fn context_width_is_honored() {
    let base = "1\n2\n3\n4\n5\n6\n7\n";
    let target = "1\n2\n3\nX\n5\n6\n7\n";
    let diff = render_diff(Some(base), Some(target), 1, "f.txt");
    assert_eq!(
        diff,
        "--- a/f.txt\n+++ b/f.txt\n@@ -3,3 +3,3 @@\n 3\n-4\n+X\n 5\n"
    );
}

#[test]
fn pure_insertion_keeps_context() {
    let base = "a\nc\n";
    let target = "a\nb\nc\n";
    let diff = render_diff(Some(base), Some(target), 3, "f.txt");
    assert_eq!(
        diff,
        "--- a/f.txt\n+++ b/f.txt\n@@ -1,2 +1,3 @@\n a\n+b\n c\n"
    );
}

#[test]
fn separated_changes_split_into_hunks() {
    let base = "1\n2\n3\n4\n5\n6\n7\n8\n9\n";
    let target = "1\nB\n3\n4\n5\n6\n7\nH\n9\n";
    let diff = render_diff(Some(base), Some(target), 1, "f.txt");
    assert_eq!(
        diff,
        "--- a/f.txt\n+++ b/f.txt\n@@ -1,3 +1,3 @@\n 1\n-2\n+B\n 3\n@@ -7,3 +7,3 @@\n 7\n-8\n+H\n 9\n"
    );
}

#[test]
fn nearby_changes_share_one_hunk_with_interior_context() {
    let base = "1\n2\n3\n4\n5\n";
    let target = "1\nB\n3\nD\n5\n";
    let diff = render_diff(Some(base), Some(target), 3, "f.txt");
    assert_eq!(
        diff,
        "--- a/f.txt\n+++ b/f.txt\n@@ -1,5 +1,5 @@\n 1\n-2\n+B\n 3\n-4\n+D\n 5\n"
    );
}

#[test]
fn insertion_and_distant_change_split_into_hunks() {
    let base = "1\n2\n3\n4\n5\n6\n7\n";
    let target = "1\nB\n3\n4\n5\n6\n7\nZ\n";
    let diff = render_diff(Some(base), Some(target), 1, "f.txt");
    assert_eq!(
        diff,
        "--- a/f.txt\n+++ b/f.txt\n@@ -1,3 +1,3 @@\n 1\n-2\n+B\n 3\n@@ -7,1 +7,2 @@\n 7\n+Z\n"
    );
}

#[test]
fn mid_file_insertion_keeps_context() {
    let base = "a\nb\nc\n";
    let target = "a\nb\nX\nc\n";
    let diff = render_diff(Some(base), Some(target), 1, "f");
    assert_eq!(diff, "--- a/f\n+++ b/f\n@@ -2,2 +2,3 @@\n b\n+X\n c\n");
}

#[test]
fn adjacent_changed_lines_grouped() {
    let base = "a\nx\ny\nd\n";
    let target = "a\nX\nY\nd\n";
    let diff = render_diff(Some(base), Some(target), 0, "f");
    assert_eq!(diff, "--- a/f\n+++ b/f\n@@ -2,2 +2,2 @@\n-x\n-y\n+X\n+Y\n");
}

#[test]
fn render_is_idempotent() {
    let first = render_diff(Some("a\n"), Some("b\n"), 3, "f");
    let second = render_diff(Some("a\n"), Some("b\n"), 3, "f");
    assert_eq!(first, second);
}

#[test]
fn hunks_only_strips_headers() {
    let raw = "diff --git a/f b/f\nindex 1..2\n--- a/f\n+++ b/f\n@@ -1,1 +1,1 @@\n-a\n+b\n";
    assert_eq!(hunks_only(raw), "@@ -1,1 +1,1 @@\n-a\n+b");
}

#[test]
fn hunks_only_without_hunks_is_empty() {
    assert_eq!(hunks_only("no markers here\n"), "");
    assert_eq!(hunks_only(""), "");
}

#[test]
fn staged_and_unstaged_clean_to_same_hunks() {
    let unstaged = "diff --git a/f b/f\nindex 111..222 100644\n--- a/f\n+++ b/f\n@@ -1,1 +1,1 @@\n-a\n+b\n";
    let staged = "diff --git a/f b/f\nindex 333..444 100644\n--- a/f\n+++ b/f\n@@ -1,1 +1,1 @@\n-a\n+b\n";
    assert_eq!(hunks_only(unstaged), hunks_only(staged));
}

#[test]
fn normalize_keeps_lines() {
    assert_eq!(normalize_diff("a\nb\n"), "a\nb");
    assert_eq!(normalize_diff("a\nb"), "a\nb");
    assert_eq!(normalize_diff(""), "");
}

#[test]
fn diff_tool_failure_reports_stderr() {
    let r = external_diff_outcome(false, Some("ignored".to_string()), Some("boom".to_string()));
    match r {
        Err(GitError::DiffToolError(msg)) => assert_eq!(msg, "boom"),
        _ => panic!("expected a diff tool error"),
    }
    let r = external_diff_outcome(false, None, None);
    match r {
        Err(GitError::DiffToolError(msg)) => assert_eq!(msg, "Unknown error"),
        _ => panic!("expected a diff tool error"),
    }
}

#[test]
fn diff_tool_bad_encoding_reported() {
    let r = external_diff_outcome(true, None, None);
    assert!(matches!(r, Err(GitError::EncodingError)));
}

#[test]
fn diff_tool_success_yields_body() {
    let r = external_diff_outcome(true, Some("the diff".to_string()), None);
    match r {
        Ok(body) => assert_eq!(body, "the diff"),
        _ => panic!("expected the diff body"),
    }
}
