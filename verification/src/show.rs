use vstd::prelude::*;
use crate::model::{ChangeKind, CommitChanges, FileDiff};
use crate::text::{
    after_last, join_lines, lines_of, spec_after_last, spec_join_nl, spec_lines, spec_starts_with,
    starts_with_str,
};

verus! {

/// The change kind of a diff block after reading one more of its lines.
/// The first extended-header line that names a kind decides it: a `new
/// file mode` line marks an addition, a `deleted file mode` line a
/// deletion, a `rename from ` line a rename; a block with none of them
/// modifies its file. Content lines cannot collide with these headers:
/// they start with `+`, `-`, a space or `@@`.
pub open spec fn spec_kind_update(k: ChangeKind, l: Seq<char>) -> ChangeKind {
    if k != ChangeKind::Modified {
        k
    } else if spec_starts_with(l, "new file mode"@) {
        ChangeKind::Added
    } else if spec_starts_with(l, "deleted file mode"@) {
        ChangeKind::Deleted
    } else if spec_starts_with(l, "rename from "@) {
        ChangeKind::Renamed
    } else {
        ChangeKind::Modified
    }
}

/// The parser state after some lines of a show listing: the finished
/// blocks (new path, joined diff text, change kind), the path, collected
/// lines and kind of the block still open, and whether a block is open
/// at all. A line that begins `diff --git` closes the open block (when
/// it names a path) and opens a new one under the path after the last
/// ` b/` of that line; every later line belongs to the open block and
/// may decide its kind; lines before the first such line are ignored.
pub open spec fn spec_show_state(lines: Seq<Seq<char>>) -> (
    Seq<(Seq<char>, Seq<char>, ChangeKind)>,
    Seq<char>,
    Seq<Seq<char>>,
    ChangeKind,
    bool,
)
    decreases lines.len(),
{
    if lines.len() == 0 {
        (
            Seq::<(Seq<char>, Seq<char>, ChangeKind)>::empty(),
            Seq::<char>::empty(),
            Seq::<Seq<char>>::empty(),
            ChangeKind::Modified,
            false,
        )
    } else {
        let st = spec_show_state(lines.drop_last());
        let l = lines.last();
        if spec_starts_with(l, "diff --git"@) {
            let done = if st.1.len() > 0 {
                st.0.push((st.1, spec_join_nl(st.2), st.3))
            } else {
                st.0
            };
            let opened: Seq<Seq<char>> = if st.1.len() > 0 {
                Seq::<Seq<char>>::empty()
            } else {
                st.2
            };
            (done, spec_after_last(l, " b/"@), opened.push(l), ChangeKind::Modified, true)
        } else if st.4 {
            (st.0, st.1, st.2.push(l), spec_kind_update(st.3, l), true)
        } else {
            st
        }
    }
}

/// The per-file diff blocks of a show listing, last open block included.
pub open spec fn spec_show_blocks(s: Seq<char>) -> Seq<(Seq<char>, Seq<char>, ChangeKind)> {
    let st = spec_show_state(spec_lines(s));
    if st.1.len() > 0 {
        st.0.push((st.1, spec_join_nl(st.2), st.3))
    } else {
        st.0
    }
}

/// Whether the extracted diffs carry exactly the given blocks, in order:
/// for each, its new path, its diff text, and the change kind its header
/// lines classify it as.
pub open spec fn diffs_match(r: Seq<FileDiff>, blocks: Seq<(Seq<char>, Seq<char>, ChangeKind)>) -> bool {
    &&& r.len() == blocks.len()
    &&& forall|i: int|
        0 <= i < r.len() ==> r[i].path@ == blocks[i].0 && r[i].diff@ == blocks[i].1 && r[i].status
            == blocks[i].2
}

/// Reads one line of an open block for the kind it names.
fn kind_update(k: ChangeKind, l: &str) -> (r: ChangeKind)
    ensures
        r == spec_kind_update(k, l@),
{
    if k != ChangeKind::Modified {
        k
    } else if starts_with_str(l, "new file mode") {
        ChangeKind::Added
    } else if starts_with_str(l, "deleted file mode") {
        ChangeKind::Deleted
    } else if starts_with_str(l, "rename from ") {
        ChangeKind::Renamed
    } else {
        ChangeKind::Modified
    }
}

/// Splits the output of a whole-commit show listing into one diff per
/// file, keyed on its `diff --git` header lines, each classified as the
/// change kind its extended header lines name.
pub fn parse_show_diffs(output: &str) -> (r: Vec<FileDiff>)
    ensures
        diffs_match(r@, spec_show_blocks(output@)),
{
    let lines = lines_of(output);
    let ghost lviews = lines@.map_values(|l: String| l@);
    let mut done: Vec<FileDiff> = Vec::new();
    let mut cur_file = String::new();
    let mut cur_lines: Vec<String> = Vec::new();
    let mut cur_kind = ChangeKind::Modified;
    let mut reading = false;
    let mut i: usize = 0;
    proof {
        assert(lviews.subrange(0, 0) =~= Seq::<Seq<char>>::empty());
    }
    while i < lines.len()
        invariant
            i <= lines@.len(),
            lviews == lines@.map_values(|l: String| l@),
            lviews == spec_lines(output@),
            diffs_match(done@, spec_show_state(lviews.subrange(0, i as int)).0),
            cur_file@ == spec_show_state(lviews.subrange(0, i as int)).1,
            cur_lines@.map_values(|l: String| l@) == spec_show_state(
                lviews.subrange(0, i as int),
            ).2,
            cur_kind == spec_show_state(lviews.subrange(0, i as int)).3,
            reading == spec_show_state(lviews.subrange(0, i as int)).4,
        decreases lines@.len() - i,
    {
        proof {
            assert(lviews.subrange(0, i + 1).drop_last() =~= lviews.subrange(0, i as int));
            assert(lviews.subrange(0, i + 1).last() == lviews[i as int]);
            assert(lines@[i as int]@ == lviews[i as int]);
        }
        if starts_with_str(lines[i].as_str(), "diff --git") {
            if cur_file.as_str().unicode_len() > 0 {
                let body = join_lines(&cur_lines);
                let ghost prev = done@;
                done.push(FileDiff { path: cur_file, status: cur_kind, diff: body });
                cur_file = String::new();
                cur_lines = Vec::new();
                proof {
                    assert(cur_lines@.map_values(|l: String| l@) =~= Seq::<Seq<char>>::empty());
                }
            }
            cur_file = after_last(lines[i].as_str(), " b/");
            cur_kind = ChangeKind::Modified;
            reading = true;
            let ghost prevl = cur_lines@.map_values(|l: String| l@);
            cur_lines.push(lines[i].clone());
            proof {
                assert(cur_lines@.map_values(|l: String| l@) =~= prevl.push(lviews[i as int]));
            }
        } else if reading {
            cur_kind = kind_update(cur_kind, lines[i].as_str());
            let ghost prevl = cur_lines@.map_values(|l: String| l@);
            cur_lines.push(lines[i].clone());
            proof {
                assert(cur_lines@.map_values(|l: String| l@) =~= prevl.push(lviews[i as int]));
            }
        }
        i += 1;
    }
    proof {
        assert(lviews.subrange(0, lviews.len() as int) =~= lviews);
    }
    if cur_file.as_str().unicode_len() > 0 {
        let body = join_lines(&cur_lines);
        done.push(FileDiff { path: cur_file, status: cur_kind, diff: body });
    }
    done
}

/// Line `i` of the listing, or empty when the listing is shorter.
pub open spec fn spec_line_or_empty(lines: Seq<Seq<char>>, i: int) -> Seq<char> {
    if 0 <= i < lines.len() {
        lines[i]
    } else {
        Seq::<char>::empty()
    }
}

/// Assembles the change set of one commit from the header listing (full
/// id, subject, author, date, one per line) and the per-file diffs. The
/// commit keeps the id the caller asked for.
pub fn commit_changes_from_outputs(
    commit_id: String,
    header_output: &str,
    changes: Vec<FileDiff>,
) -> (r: CommitChanges)
    ensures
        r.id@ == commit_id@,
        r.message@ == spec_line_or_empty(spec_lines(header_output@), 1),
        r.author@ == spec_line_or_empty(spec_lines(header_output@), 2),
        r.date@ == spec_line_or_empty(spec_lines(header_output@), 3),
        r.changes == changes,
{
    let lines = lines_of(header_output);
    let ghost lviews = lines@.map_values(|l: String| l@);
    let message = if lines.len() > 1 {
        lines[1].clone()
    } else {
        String::new()
    };
    let author = if lines.len() > 2 {
        lines[2].clone()
    } else {
        String::new()
    };
    let date = if lines.len() > 3 {
        lines[3].clone()
    } else {
        String::new()
    };
    proof {
        assert(lines@.len() > 1 ==> lines@[1]@ == lviews[1]);
        assert(lines@.len() > 2 ==> lines@[2]@ == lviews[2]);
        assert(lines@.len() > 3 ==> lines@[3]@ == lviews[3]);
    }
    CommitChanges { id: commit_id, message, author, date, changes }
}

} // verus!
