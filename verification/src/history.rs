use vstd::prelude::*;
use crate::model::Commit;
use crate::text::{lines_of, spec_lines, spec_split, spec_trim, split_on, trim_ws};

verus! {

/// One commit as printed by the command-line history listing: an
/// abbreviated id, the author, a relative date, and the subject line.
#[derive(Clone, Debug)]
pub struct CliCommit {
    pub id: String,
    pub author: String,
    pub date: String,
    pub message: String,
}

/// Builds one commit record from the fields of a structured history walk;
/// a missing author name, email or message is recorded as empty.
pub fn commit_from_parts(
    id: String,
    author: Option<String>,
    email: Option<String>,
    message: Option<String>,
    timestamp: i64,
) -> (r: Commit)
    ensures
        r.id@ == id@,
        r.author@ == (match author {
            Some(a) => a@,
            None => Seq::<char>::empty(),
        }),
        r.email@ == (match email {
            Some(e) => e@,
            None => Seq::<char>::empty(),
        }),
        r.message@ == (match message {
            Some(m) => m@,
            None => Seq::<char>::empty(),
        }),
        r.timestamp == timestamp,
{
    let author = match author {
        Some(a) => a,
        None => String::new(),
    };
    let email = match email {
        Some(e) => e,
        None => String::new(),
    };
    let message = match message {
        Some(m) => m,
        None => String::new(),
    };
    Commit { id, author, email, message, timestamp }
}

/// The four fields of a well-formed history line, each trimmed.
pub open spec fn spec_log_row(l: Seq<char>) -> (Seq<char>, Seq<char>, Seq<char>, Seq<char>) {
    let ps = spec_split(l, '|');
    (spec_trim(ps[0]), spec_trim(ps[1]), spec_trim(ps[2]), spec_trim(ps[3]))
}

/// The rows of the history listing: one per line that holds exactly four
/// `|`-separated fields; any other line is ignored.
pub open spec fn spec_log_rows(lines: Seq<Seq<char>>) -> Seq<
    (Seq<char>, Seq<char>, Seq<char>, Seq<char>),
>
    decreases lines.len(),
{
    if lines.len() == 0 {
        Seq::empty()
    } else {
        let rest = spec_log_rows(lines.drop_last());
        if spec_split(lines.last(), '|').len() == 4 {
            rest.push(spec_log_row(lines.last()))
        } else {
            rest
        }
    }
}

/// The parsed history of a command-line log output.
pub open spec fn spec_log_entries(s: Seq<char>) -> Seq<
    (Seq<char>, Seq<char>, Seq<char>, Seq<char>),
> {
    spec_log_rows(spec_lines(s))
}

/// Whether the parsed commits carry exactly the given rows, in order.
pub open spec fn log_rows_match(
    r: Seq<CliCommit>,
    rows: Seq<(Seq<char>, Seq<char>, Seq<char>, Seq<char>)>,
) -> bool {
    &&& r.len() == rows.len()
    &&& forall|i: int|
        0 <= i < r.len() ==> r[i].id@ == rows[i].0 && r[i].author@ == rows[i].1 && r[i].date@
            == rows[i].2 && r[i].message@ == rows[i].3
}

/// Parses the output of the command-line history listing: one commit per
/// line of exactly four `|`-separated fields, fields trimmed, other lines
/// ignored. Empty output yields an empty history, never an error.
pub fn parse_log(output: &str) -> (r: Vec<CliCommit>)
    ensures
        log_rows_match(r@, spec_log_entries(output@)),
        output@.len() == 0 ==> r@.len() == 0,
{
    let lines = lines_of(output);
    let ghost lviews = lines@.map_values(|l: String| l@);
    let mut r: Vec<CliCommit> = Vec::new();
    let mut i: usize = 0;
    proof {
        assert(lviews.subrange(0, 0) =~= Seq::<Seq<char>>::empty());
    }
    while i < lines.len()
        invariant
            i <= lines@.len(),
            lviews == lines@.map_values(|l: String| l@),
            lviews == spec_lines(output@),
            log_rows_match(r@, spec_log_rows(lviews.subrange(0, i as int))),
        decreases lines@.len() - i,
    {
        proof {
            assert(lviews.subrange(0, i + 1).drop_last() =~= lviews.subrange(0, i as int));
            assert(lviews.subrange(0, i + 1).last() == lviews[i as int]);
            assert(lines@[i as int]@ == lviews[i as int]);
        }
        let parts = split_on(lines[i].as_str(), '|');
        proof {
            assert(parts@.map_values(|l: String| l@).len() == parts@.len());
        }
        if parts.len() == 4 {
            let c = CliCommit {
                id: trim_ws(parts[0].as_str()),
                author: trim_ws(parts[1].as_str()),
                date: trim_ws(parts[2].as_str()),
                message: trim_ws(parts[3].as_str()),
            };
            proof {
                assert(parts@[0]@ == spec_split(lviews[i as int], '|')[0]);
                assert(parts@[1]@ == spec_split(lviews[i as int], '|')[1]);
                assert(parts@[2]@ == spec_split(lviews[i as int], '|')[2]);
                assert(parts@[3]@ == spec_split(lviews[i as int], '|')[3]);
            }
            r.push(c);
        }
        i += 1;
    }
    proof {
        assert(lviews.subrange(0, lviews.len() as int) =~= lviews);
        if output@.len() == 0 {
            assert(spec_lines(output@) =~= Seq::<Seq<char>>::empty());
        }
    }
    r
}

} // verus!
