use vstd::prelude::*;
use crate::model::Branch;
use crate::text::{lines_of, spec_lines, spec_trim, trim_ws};

verus! {

/// One parsed branch line: the branch name and whether it is HEAD. The
/// listing marks the checked-out branch with a star, which the name drops
/// together with the space after it.
pub open spec fn spec_branch_row(l: Seq<char>) -> (Seq<char>, bool) {
    let t = spec_trim(l);
    let head = t.len() > 0 && t[0] == '*';
    let name = if head {
        if t.len() >= 2 {
            t.subrange(2, t.len() as int)
        } else {
            Seq::<char>::empty()
        }
    } else {
        t
    };
    (name, head)
}

/// The rows of a branch listing: one per line that is not blank.
pub open spec fn spec_branch_rows(lines: Seq<Seq<char>>) -> Seq<(Seq<char>, bool)>
    decreases lines.len(),
{
    if lines.len() == 0 {
        Seq::empty()
    } else {
        let rest = spec_branch_rows(lines.drop_last());
        if spec_trim(lines.last()).len() > 0 {
            rest.push(spec_branch_row(lines.last()))
        } else {
            rest
        }
    }
}

/// The parsed branches of a branch listing.
pub open spec fn spec_branches(s: Seq<char>) -> Seq<(Seq<char>, bool)> {
    spec_branch_rows(spec_lines(s))
}

/// Whether the branches carry exactly the given rows, in order. A local
/// listing names no remote branch.
pub open spec fn branches_match(r: Seq<Branch>, rows: Seq<(Seq<char>, bool)>) -> bool {
    &&& r.len() == rows.len()
    &&& forall|i: int|
        0 <= i < r.len() ==> r[i].name@ == rows[i].0 && r[i].is_head == rows[i].1 && !r[i].is_remote
}

/// Parses the output of a local branch listing: one branch per non-blank
/// line, the starred line being the checked-out branch.
pub fn parse_branches(output: &str) -> (r: Vec<Branch>)
    ensures
        branches_match(r@, spec_branches(output@)),
        output@.len() == 0 ==> r@.len() == 0,
{
    let lines = lines_of(output);
    let ghost lviews = lines@.map_values(|l: String| l@);
    let mut r: Vec<Branch> = Vec::new();
    let mut i: usize = 0;
    proof {
        assert(lviews.subrange(0, 0) =~= Seq::<Seq<char>>::empty());
    }
    while i < lines.len()
        invariant
            i <= lines@.len(),
            lviews == lines@.map_values(|l: String| l@),
            lviews == spec_lines(output@),
            branches_match(r@, spec_branch_rows(lviews.subrange(0, i as int))),
        decreases lines@.len() - i,
    {
        proof {
            assert(lviews.subrange(0, i + 1).drop_last() =~= lviews.subrange(0, i as int));
            assert(lviews.subrange(0, i + 1).last() == lviews[i as int]);
            assert(lines@[i as int]@ == lviews[i as int]);
        }
        let t = trim_ws(lines[i].as_str());
        let n = t.as_str().unicode_len();
        if n > 0 {
            let head = t.as_str().get_char(0) == '*';
            let name = if head {
                if n >= 2 {
                    let piece = t.as_str().substring_char(2, n);
                    piece.to_owned()
                } else {
                    String::new()
                }
            } else {
                t
            };
            r.push(Branch { name, is_remote: false, is_head: head });
        }
        i += 1;
    }
    proof {
        assert(lviews.subrange(0, lviews.len() as int) =~= lviews);
        if output@.len() == 0 {
            assert(spec_lines(output@) =~= Seq::<Seq<char>>::empty());
        }
    }
    r
}

/// The number of rows marked as HEAD.
pub open spec fn spec_count_heads(rows: Seq<(Seq<char>, bool)>) -> nat
    decreases rows.len(),
{
    if rows.len() == 0 {
        0
    } else {
        spec_count_heads(rows.drop_last()) + if rows.last().1 {
            1nat
        } else {
            0nat
        }
    }
}

/// The number of lines that, trimmed, begin with a star.
pub open spec fn spec_count_star_lines(lines: Seq<Seq<char>>) -> nat
    decreases lines.len(),
{
    if lines.len() == 0 {
        0
    } else {
        spec_count_star_lines(lines.drop_last()) + if spec_trim(lines.last()).len() > 0
            && spec_trim(lines.last())[0] == '*' {
            1nat
        } else {
            0nat
        }
    }
}

/// A branch listing marks exactly its starred lines as HEAD: the parsed
/// rows hold as many HEAD entries as the listing holds starred lines. In
/// particular, a listing with one starred line (HEAD on a branch) yields
/// exactly one HEAD entry, and one with none (detached HEAD) yields none.
pub proof fn lemma_one_head_per_star(lines: Seq<Seq<char>>)
    ensures
        spec_count_heads(spec_branch_rows(lines)) == spec_count_star_lines(lines),
    decreases lines.len(),
{
    if lines.len() == 0 {
    } else {
        lemma_one_head_per_star(lines.drop_last());
        let rest = spec_branch_rows(lines.drop_last());
        if spec_trim(lines.last()).len() > 0 {
            assert(rest.push(spec_branch_row(lines.last())).drop_last() =~= rest);
        }
    }
}

} // verus!
