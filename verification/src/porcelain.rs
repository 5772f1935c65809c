use vstd::prelude::*;
use crate::model::{ChangeKind, FileChange};
use crate::status::{
    classify_name_status, classify_porcelain, spec_classify_name_status, spec_classify_porcelain,
};
use crate::text::{lines_of, spec_lines, spec_tokens, str_eq, tokens_of};

verus! {

/// The path named by one status line: the second field, except that a
/// rename arrow names the destination, which is what a rename reports.
pub open spec fn spec_row_path(ts: Seq<Seq<char>>, kind: ChangeKind) -> Seq<char> {
    if kind == ChangeKind::Renamed && ts.len() >= 4 && ts[ts.len() - 2] == "->"@ {
        ts.last()
    } else {
        ts[1]
    }
}

/// One parsed porcelain status line: its path and change kind.
pub open spec fn spec_porcelain_row(l: Seq<char>) -> (Seq<char>, ChangeKind) {
    let ts = spec_tokens(l);
    let kind = spec_classify_porcelain(ts[0]);
    (spec_row_path(ts, kind), kind)
}

/// The rows of a porcelain status output: one per line with at least two
/// fields; shorter lines are ignored.
pub open spec fn spec_porcelain_rows(lines: Seq<Seq<char>>) -> Seq<(Seq<char>, ChangeKind)>
    decreases lines.len(),
{
    if lines.len() == 0 {
        Seq::empty()
    } else {
        let rest = spec_porcelain_rows(lines.drop_last());
        if spec_tokens(lines.last()).len() >= 2 {
            rest.push(spec_porcelain_row(lines.last()))
        } else {
            rest
        }
    }
}

/// The parsed changes of a porcelain status output.
pub open spec fn spec_status_changes(s: Seq<char>) -> Seq<(Seq<char>, ChangeKind)> {
    spec_porcelain_rows(spec_lines(s))
}

/// Whether the changes carry exactly the given rows, in order.
pub open spec fn changes_match(r: Seq<FileChange>, rows: Seq<(Seq<char>, ChangeKind)>) -> bool {
    &&& r.len() == rows.len()
    &&& forall|i: int|
        0 <= i < r.len() ==> r[i].path@ == rows[i].0 && r[i].status == rows[i].1
}

/// Picks the reported path out of the fields of one status line.
fn row_path(ts: &Vec<String>, kind: ChangeKind) -> (r: String)
    requires
        ts@.len() >= 2,
    ensures
        r@ == spec_row_path(ts@.map_values(|t: String| t@), kind),
{
    let ghost tviews = ts@.map_values(|t: String| t@);
    if matches!(kind, ChangeKind::Renamed) && ts.len() >= 4 && str_eq(
        ts[ts.len() - 2].as_str(),
        "->",
    ) {
        proof {
            assert(tviews[tviews.len() - 2] == ts@[ts@.len() - 2]@);
            assert(tviews.last() == ts@[ts@.len() - 1]@);
        }
        ts[ts.len() - 1].clone()
    } else {
        proof {
            assert(tviews[1] == ts@[1]@);
        }
        ts[1].clone()
    }
}

/// Parses the output of a porcelain status query: one change per line of
/// at least two whitespace-separated fields, the first field classified
/// as the change kind, the second (or, for a rename, the field after the
/// arrow) taken as the path. Other lines are ignored.
pub fn parse_status_porcelain(output: &str) -> (r: Vec<FileChange>)
    ensures
        changes_match(r@, spec_status_changes(output@)),
        output@.len() == 0 ==> r@.len() == 0,
{
    let lines = lines_of(output);
    let ghost lviews = lines@.map_values(|l: String| l@);
    let mut r: Vec<FileChange> = Vec::new();
    let mut i: usize = 0;
    proof {
        assert(lviews.subrange(0, 0) =~= Seq::<Seq<char>>::empty());
    }
    while i < lines.len()
        invariant
            i <= lines@.len(),
            lviews == lines@.map_values(|l: String| l@),
            lviews == spec_lines(output@),
            changes_match(r@, spec_porcelain_rows(lviews.subrange(0, i as int))),
        decreases lines@.len() - i,
    {
        proof {
            assert(lviews.subrange(0, i + 1).drop_last() =~= lviews.subrange(0, i as int));
            assert(lviews.subrange(0, i + 1).last() == lviews[i as int]);
            assert(lines@[i as int]@ == lviews[i as int]);
        }
        let ts = tokens_of(lines[i].as_str());
        let ghost tviews = ts@.map_values(|t: String| t@);
        if ts.len() >= 2 {
            proof {
                assert(tviews[0] == ts@[0]@);
            }
            let kind = classify_porcelain(ts[0].as_str());
            let path = row_path(&ts, kind);
            r.push(FileChange { path, status: kind });
        }
        i += 1;
    }
    proof {
        assert(lviews.subrange(0, lviews.len() as int) =~= lviews);
        if output@.len() == 0 {
            assert(spec_lines(output@) =~= Seq::<Seq<char>>::empty());
        }
    }
    r
}

/// One parsed name-status line: its path and change kind.
pub open spec fn spec_name_status_row(l: Seq<char>) -> (Seq<char>, ChangeKind) {
    let ts = spec_tokens(l);
    let kind = spec_classify_name_status(ts[0]);
    (spec_row_path(ts, kind), kind)
}

/// The rows of a name-status output: one per line with at least two
/// fields; shorter lines are ignored.
pub open spec fn spec_name_status_rows(lines: Seq<Seq<char>>) -> Seq<(Seq<char>, ChangeKind)>
    decreases lines.len(),
{
    if lines.len() == 0 {
        Seq::empty()
    } else {
        let rest = spec_name_status_rows(lines.drop_last());
        if spec_tokens(lines.last()).len() >= 2 {
            rest.push(spec_name_status_row(lines.last()))
        } else {
            rest
        }
    }
}

/// The parsed changes of a name-status output.
pub open spec fn spec_name_status_changes(s: Seq<char>) -> Seq<(Seq<char>, ChangeKind)> {
    spec_name_status_rows(spec_lines(s))
}

/// Parses the output of a name-status diff listing: as the porcelain
/// parser, but between two snapshots nothing is untracked, so only the
/// codes `M`, `A`, `D` and `R` are recognized.
pub fn parse_name_status(output: &str) -> (r: Vec<FileChange>)
    ensures
        changes_match(r@, spec_name_status_changes(output@)),
        output@.len() == 0 ==> r@.len() == 0,
{
    let lines = lines_of(output);
    let ghost lviews = lines@.map_values(|l: String| l@);
    let mut r: Vec<FileChange> = Vec::new();
    let mut i: usize = 0;
    proof {
        assert(lviews.subrange(0, 0) =~= Seq::<Seq<char>>::empty());
    }
    while i < lines.len()
        invariant
            i <= lines@.len(),
            lviews == lines@.map_values(|l: String| l@),
            lviews == spec_lines(output@),
            changes_match(r@, spec_name_status_rows(lviews.subrange(0, i as int))),
        decreases lines@.len() - i,
    {
        proof {
            assert(lviews.subrange(0, i + 1).drop_last() =~= lviews.subrange(0, i as int));
            assert(lviews.subrange(0, i + 1).last() == lviews[i as int]);
            assert(lines@[i as int]@ == lviews[i as int]);
        }
        let ts = tokens_of(lines[i].as_str());
        let ghost tviews = ts@.map_values(|t: String| t@);
        if ts.len() >= 2 {
            proof {
                assert(tviews[0] == ts@[0]@);
            }
            let kind = classify_name_status(ts[0].as_str());
            let path = row_path(&ts, kind);
            r.push(FileChange { path, status: kind });
        }
        i += 1;
    }
    proof {
        assert(lviews.subrange(0, lviews.len() as int) =~= lviews);
        if output@.len() == 0 {
            assert(spec_lines(output@) =~= Seq::<Seq<char>>::empty());
        }
    }
    r
}

/// Reading the same status output twice yields identical results: any
/// two change lists parsed from one output agree entry by entry, since
/// each is pinned to the same parsed rows. With the repository unchanged
/// between two queries the outputs agree, and so do the results.
pub proof fn lemma_status_read_deterministic(
    r1: Seq<FileChange>,
    r2: Seq<FileChange>,
    rows: Seq<(Seq<char>, ChangeKind)>,
)
    requires
        changes_match(r1, rows),
        changes_match(r2, rows),
    ensures
        r1.len() == r2.len(),
        forall|i: int|
            0 <= i < r1.len() ==> r1[i].path@ == r2[i].path@ && r1[i].status == r2[i].status,
{
    assert forall|i: int|
        0 <= i < r1.len() implies r1[i].path@ == r2[i].path@ && r1[i].status == r2[i].status by {
        assert(r1[i].path@ == rows[i].0);
        assert(r2[i].path@ == rows[i].0);
    }
}

/// The status of one file in a porcelain listing: the kind of the first
/// line whose second field is the file's name, or `Unknown` if none is.
pub open spec fn spec_status_of_file(lines: Seq<Seq<char>>, name: Seq<char>) -> ChangeKind
    decreases lines.len(),
{
    if lines.len() == 0 {
        ChangeKind::Unknown
    } else {
        let ts = spec_tokens(lines[0]);
        if ts.len() >= 2 && ts[1] == name {
            spec_classify_porcelain(ts[0])
        } else {
            spec_status_of_file(lines.drop_first(), name)
        }
    }
}

/// Looks one file up in a porcelain status output; a file not listed
/// there has no pending change and reports `Unknown`.
pub fn status_of_file(output: &str, filename: &str) -> (r: ChangeKind)
    ensures
        r == spec_status_of_file(spec_lines(output@), filename@),
{
    let lines = lines_of(output);
    let ghost lviews = lines@.map_values(|l: String| l@);
    let mut i: usize = 0;
    proof {
        assert(lviews.subrange(0, lviews.len() as int) =~= lviews);
    }
    while i < lines.len()
        invariant
            i <= lines@.len(),
            lviews == lines@.map_values(|l: String| l@),
            lviews == spec_lines(output@),
            spec_status_of_file(lviews, filename@) == spec_status_of_file(
                lviews.subrange(i as int, lviews.len() as int),
                filename@,
            ),
        decreases lines@.len() - i,
    {
        let ghost tail = lviews.subrange(i as int, lviews.len() as int);
        proof {
            assert(tail[0] == lviews[i as int]);
            assert(tail.drop_first() =~= lviews.subrange(i + 1, lviews.len() as int));
            assert(lines@[i as int]@ == lviews[i as int]);
        }
        let ts = tokens_of(lines[i].as_str());
        let ghost tviews = ts@.map_values(|t: String| t@);
        if ts.len() >= 2 {
            proof {
                assert(tviews[0] == ts@[0]@);
                assert(tviews[1] == ts@[1]@);
            }
            if str_eq(ts[1].as_str(), filename) {
                return classify_porcelain(ts[0].as_str());
            }
        }
        i += 1;
    }
    proof {
        assert(lviews.subrange(lviews.len() as int, lviews.len() as int)
            =~= Seq::<Seq<char>>::empty());
    }
    ChangeKind::Unknown
}

/// How to obtain the working-tree diff of one file, given its status.
#[derive(Clone, Copy, Debug, PartialEq, Eq, Structural)]
pub enum DiffPlan {
    /// The file has no pending change: no diff tool runs.
    NoChanges,
    /// The file is untracked: its diff is taken against empty content.
    AgainstEmpty,
    /// The file is tracked: its diff is taken against the last snapshot.
    AgainstSnapshot,
}

/// Decides how the diff of one file is obtained. A file with no known
/// change yields no diff; an untracked file diffs against empty content;
/// every other change diffs against the last snapshot.
pub fn plan_file_diff(status: ChangeKind) -> (r: DiffPlan)
    ensures
        (r is NoChanges) <==> status == ChangeKind::Unknown,
        (r is AgainstEmpty) <==> status == ChangeKind::Untracked,
        (r is AgainstSnapshot) <==> (status != ChangeKind::Unknown && status
            != ChangeKind::Untracked),
{
    match status {
        ChangeKind::Unknown => DiffPlan::NoChanges,
        ChangeKind::Untracked => DiffPlan::AgainstEmpty,
        _ => DiffPlan::AgainstSnapshot,
    }
}

/// The message reported for a file with no pending change.
pub fn no_changes_message() -> (r: String)
    ensures
        r@ == "No changes detected for this file."@,
{
    "No changes detected for this file.".to_owned()
}

} // verus!
