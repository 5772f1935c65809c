use vstd::prelude::*;
use crate::model::GitError;
use crate::text::{
    join_lines, lines_of, spec_join_nl, spec_lines, spec_starts_with, starts_with_str,
};

verus! {

/// The lines from the first hunk marker on; nothing when no line starts
/// with one.
pub open spec fn spec_from_first_hunk(lines: Seq<Seq<char>>) -> Seq<Seq<char>>
    decreases lines.len(),
{
    if lines.len() == 0 {
        Seq::empty()
    } else if spec_starts_with(lines[0], "@@"@) {
        lines
    } else {
        spec_from_first_hunk(lines.drop_first())
    }
}

/// A cleaned diff: its lines from the first hunk marker on, rejoined.
pub open spec fn spec_hunks_only(s: Seq<char>) -> Seq<char> {
    spec_join_nl(spec_from_first_hunk(spec_lines(s)))
}

/// Strips the header of a diff listing, keeping the text from the first
/// hunk marker on; a listing without one cleans to nothing.
pub fn hunks_only(diff: &str) -> (r: String)
    ensures
        r@ == spec_hunks_only(diff@),
{
    let lines = lines_of(diff);
    let ghost lviews = lines@.map_values(|l: String| l@);
    let mut i: usize = 0;
    proof {
        assert(lviews.subrange(0, lviews.len() as int) =~= lviews);
    }
    while i < lines.len()
        invariant
            i <= lines@.len(),
            lviews == lines@.map_values(|l: String| l@),
            lviews == spec_lines(diff@),
            spec_from_first_hunk(lviews) == spec_from_first_hunk(
                lviews.subrange(i as int, lviews.len() as int),
            ),
        ensures
            i <= lviews.len(),
            spec_from_first_hunk(lviews) == spec_from_first_hunk(
                lviews.subrange(i as int, lviews.len() as int),
            ),
            i < lviews.len() ==> spec_starts_with(lviews[i as int], "@@"@),
        decreases lines@.len() - i,
    {
        let ghost tail = lviews.subrange(i as int, lviews.len() as int);
        proof {
            assert(tail[0] == lviews[i as int]);
            assert(tail.drop_first() =~= lviews.subrange(i + 1, lviews.len() as int));
            assert(lines@[i as int]@ == lviews[i as int]);
        }
        if starts_with_str(lines[i].as_str(), "@@") {
            break ;
        }
        i += 1;
    }
    let mut kept: Vec<String> = Vec::new();
    let mut j: usize = i;
    proof {
        assert(kept@.map_values(|l: String| l@) =~= lviews.subrange(i as int, i as int));
    }
    while j < lines.len()
        invariant
            i <= j <= lines@.len(),
            lviews == lines@.map_values(|l: String| l@),
            kept@.map_values(|l: String| l@) == lviews.subrange(i as int, j as int),
        decreases lines@.len() - j,
    {
        let ghost prev = kept@.map_values(|l: String| l@);
        kept.push(lines[j].clone());
        proof {
            assert(lines@[j as int]@ == lviews[j as int]);
            assert(kept@.map_values(|l: String| l@) =~= prev.push(lviews[j as int]));
            assert(lviews.subrange(i as int, j + 1) =~= lviews.subrange(i as int, j as int).push(
                lviews[j as int],
            ));
        }
        j += 1;
    }
    proof {
        if i < lviews.len() {
            assert(spec_from_first_hunk(lviews.subrange(i as int, lviews.len() as int))
                == lviews.subrange(i as int, lviews.len() as int));
        } else {
            assert(lviews.subrange(i as int, lviews.len() as int) =~= Seq::<Seq<char>>::empty());
        }
    }
    join_lines(&kept)
}

/// Two diff listings that agree from their first hunk marker on (for
/// example a staged and an unstaged rendering of one and the same edit,
/// which differ only in the header lines above the first hunk) clean to
/// identical hunk text.
pub proof fn lemma_hunks_agree(d1: Seq<char>, d2: Seq<char>)
    requires
        spec_from_first_hunk(spec_lines(d1)) == spec_from_first_hunk(spec_lines(d2)),
    ensures
        spec_hunks_only(d1) == spec_hunks_only(d2),
{
}

/// Rejoins the lines of a diff listing unchanged: trailing line ends are
/// normalized, nothing else.
pub fn normalize_diff(diff: &str) -> (r: String)
    ensures
        r@ == spec_join_nl(spec_lines(diff@)),
{
    let lines = lines_of(diff);
    join_lines(&lines)
}

/// Classifies the outcome of one external diff-tool run from its exit
/// status and its decoded output streams. A failed run reports the tool's
/// error text; a run whose output is not valid text reports an encoding
/// failure; only a clean run yields the diff body.
pub fn external_diff_outcome(success: bool, stdout: Option<String>, stderr: Option<String>) -> (r:
    Result<String, GitError>)
    ensures
        (r is Ok) <==> (success && stdout is Some),
        r is Ok ==> r->Ok_0@ == stdout->0@,
        !success ==> r is Err && r->Err_0 is DiffToolError && r->Err_0->DiffToolError_0@ == (
        match stderr {
            Some(e) => e@,
            None => "Unknown error"@,
        }),
        success && stdout is None ==> r is Err && r->Err_0 is EncodingError,
{
    if !success {
        let detail = match stderr {
            Some(e) => e,
            None => "Unknown error".to_owned(),
        };
        Err(GitError::DiffToolError(detail))
    } else {
        match stdout {
            Some(body) => Ok(body),
            None => Err(GitError::EncodingError),
        }
    }
}

} // verus!
