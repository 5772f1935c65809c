use vstd::prelude::*;

verus! {

/// The separated segments of `s`: splitting on `sep` yields one segment
/// more than there are separators, and empty segments are kept.
pub open spec fn spec_split(s: Seq<char>, sep: char) -> Seq<Seq<char>>
    decreases s.len(),
{
    if s.len() == 0 {
        seq![Seq::<char>::empty()]
    } else if s[0] == sep {
        seq![Seq::<char>::empty()] + spec_split(s.drop_first(), sep)
    } else {
        let rest = spec_split(s.drop_first(), sep);
        rest.update(0, seq![s[0]] + rest[0])
    }
}

pub proof fn lemma_split_len(s: Seq<char>, sep: char)
    ensures
        spec_split(s, sep).len() >= 1,
    decreases s.len(),
{
    if s.len() == 0 {
    } else {
        lemma_split_len(s.drop_first(), sep);
    }
}

/// Appending one character to the input extends the last segment, or, for
/// the separator itself, opens a new empty segment.
pub proof fn lemma_split_push(s: Seq<char>, c: char, sep: char)
    ensures
        c == sep ==> spec_split(s.push(c), sep) =~~= spec_split(s, sep).push(
            Seq::<char>::empty(),
        ),
        c != sep ==> spec_split(s.push(c), sep) =~~= spec_split(s, sep).update(
            spec_split(s, sep).len() - 1,
            spec_split(s, sep).last().push(c),
        ),
    decreases s.len(),
{
    lemma_split_len(s, sep);
    if s.len() == 0 {
        assert(s.push(c).drop_first() =~= Seq::<char>::empty());
        assert(s.push(c)[0] == c);
        assert(spec_split(Seq::<char>::empty(), sep) =~~= seq![Seq::<char>::empty()]);
        if c != sep {
            assert(spec_split(s.push(c), sep) =~~= seq![seq![c]]);
            assert(spec_split(s, sep).update(0, spec_split(s, sep).last().push(c)) =~~= seq![
                seq![c],
            ]);
        }
    } else {
        lemma_split_len(s.drop_first(), sep);
        lemma_split_push(s.drop_first(), c, sep);
        assert(s.push(c).drop_first() =~= s.drop_first().push(c));
        assert(s.push(c)[0] == s[0]);
        let r0 = spec_split(s.drop_first(), sep);
        if s[0] == sep {
            if c == sep {
                assert(spec_split(s.push(c), sep) =~~= (seq![Seq::<char>::empty()] + r0.push(
                    Seq::<char>::empty(),
                )));
                assert((seq![Seq::<char>::empty()] + r0.push(Seq::<char>::empty())) =~~= (
                seq![Seq::<char>::empty()] + r0).push(Seq::<char>::empty()));
            } else {
                assert(spec_split(s.push(c), sep) =~~= (seq![Seq::<char>::empty()] + r0.update(
                    r0.len() - 1,
                    r0.last().push(c),
                )));
                assert((seq![Seq::<char>::empty()] + r0.update(r0.len() - 1, r0.last().push(c)))
                    =~~= (seq![Seq::<char>::empty()] + r0).update(r0.len() as int, r0.last().push(c)));
            }
        } else {
            if c == sep {
                let lhs = r0.push(Seq::<char>::empty()).update(0, seq![s[0]] + r0.push(
                    Seq::<char>::empty(),
                )[0]);
                assert(spec_split(s.push(c), sep) =~~= lhs);
                assert(lhs =~~= r0.update(0, seq![s[0]] + r0[0]).push(Seq::<char>::empty()));
            } else {
                let r1 = r0.update(r0.len() - 1, r0.last().push(c));
                let lhs = r1.update(0, seq![s[0]] + r1[0]);
                assert(spec_split(s.push(c), sep) =~~= lhs);
                let base = r0.update(0, seq![s[0]] + r0[0]);
                let rhs = base.update(base.len() - 1, base.last().push(c));
                assert(lhs =~~= rhs);
            }
        }
    }
}

/// Splitting loses nothing: joining the segments with a newline between
/// consecutive segments restores the original text.
pub proof fn lemma_join_restores_split(s: Seq<char>)
    ensures
        spec_join_nl(spec_split(s, '\n')) =~= s,
    decreases s.len(),
{
    lemma_split_len(s, '\n');
    if s.len() == 0 {
    } else {
        lemma_join_restores_split(s.drop_first());
        lemma_split_len(s.drop_first(), '\n');
        let r = spec_split(s.drop_first(), '\n');
        if s[0] == '\n' {
            let w = seq![Seq::<char>::empty()] + r;
            assert(w.drop_first() =~= r);
            assert(w[0] =~= Seq::<char>::empty());
            assert(spec_join_nl(w) =~= w[0] + seq!['\n'] + spec_join_nl(r));
            assert(seq!['\n'] + s.drop_first() =~= s);
        } else {
            let u = r.update(0, seq![s[0]] + r[0]);
            if r.len() == 1 {
                assert(spec_join_nl(u) == u[0]);
                assert(spec_join_nl(r) == r[0]);
                assert(seq![s[0]] + s.drop_first() =~= s);
                assert(u[0] =~= seq![s[0]] + r[0]);
            } else {
                assert(u.drop_first() =~= r.drop_first());
                assert(spec_join_nl(u) =~= u[0] + seq!['\n'] + spec_join_nl(u.drop_first()));
                assert(spec_join_nl(r) =~= r[0] + seq!['\n'] + spec_join_nl(r.drop_first()));
                assert(seq![s[0]] + spec_join_nl(r) =~= spec_join_nl(u));
                assert(seq![s[0]] + s.drop_first() =~= s);
            }
        }
    }
}

/// Relies on String::push: appends the given character to the end.
#[verifier::external_body]
pub(crate) fn push_char(s: &mut String, c: char)
    ensures
        final(s)@ == old(s)@.push(c),
{
    s.push(c);
}

/// Splits `s` at every occurrence of `sep`, keeping empty segments.
pub fn split_on(s: &str, sep: char) -> (r: Vec<String>)
    ensures
        r@.map_values(|l: String| l@) == spec_split(s@, sep),
{
    let n = s.unicode_len();
    let mut r: Vec<String> = Vec::new();
    let mut cur = String::new();
    let mut i: usize = 0;
    proof {
        assert(s@.subrange(0, 0) =~= Seq::<char>::empty());
        assert(r@.map_values(|l: String| l@).push(cur@) =~= spec_split(
            s@.subrange(0, 0),
            sep,
        ));
    }
    while i < n
        invariant
            i <= n,
            n == s@.len(),
            spec_split(s@.subrange(0, i as int), sep) == r@.map_values(|l: String| l@).push(cur@),
        decreases n - i,
    {
        let c = s.get_char(i);
        proof {
            lemma_split_push(s@.subrange(0, i as int), c, sep);
            lemma_split_len(s@.subrange(0, i as int), sep);
            assert(s@.subrange(0, i as int).push(c) =~= s@.subrange(0, i + 1));
        }
        if c == sep {
            let ghost prev = r@.map_values(|l: String| l@);
            let ghost oldcur = cur@;
            r.push(cur);
            cur = String::new();
            proof {
                assert(r@.map_values(|l: String| l@) =~= prev.push(oldcur));
                assert(spec_split(s@.subrange(0, i + 1), sep) =~~= r@.map_values(
                    |l: String| l@,
                ).push(cur@));
            }
        } else {
            push_char(&mut cur, c);
            proof {
                assert(spec_split(s@.subrange(0, i + 1), sep) =~~= r@.map_values(
                    |l: String| l@,
                ).push(cur@));
            }
        }
        i += 1;
    }
    proof {
        assert(s@.subrange(0, n as int) =~= s@);
    }
    let ghost prev = r@.map_values(|l: String| l@);
    r.push(cur);
    proof {
        assert(r@.map_values(|l: String| l@) =~= prev.push(cur@));
    }
    r
}

/// A line without its carriage return, if it ends in one.
pub open spec fn spec_strip_cr(l: Seq<char>) -> Seq<char> {
    if l.len() > 0 && l.last() == '\r' {
        l.drop_last()
    } else {
        l
    }
}

/// The lines of a text block: the newline-separated segments, with one
/// final newline (if any) terminating the last line rather than opening
/// an empty one, and a carriage return before a newline dropped. Empty
/// text has no lines.
pub open spec fn spec_lines(s: Seq<char>) -> Seq<Seq<char>> {
    let raw = if s.len() == 0 {
        Seq::<Seq<char>>::empty()
    } else if s.last() == '\n' {
        spec_split(s.drop_last(), '\n')
    } else {
        spec_split(s, '\n')
    };
    raw.map_values(|l: Seq<char>| spec_strip_cr(l))
}

/// Splits a text block into its lines.
pub fn lines_of(s: &str) -> (r: Vec<String>)
    ensures
        r@.map_values(|l: String| l@) == spec_lines(s@),
{
    let n = s.unicode_len();
    let raw: Vec<String> = if n == 0 {
        Vec::new()
    } else {
        let last = s.get_char(n - 1);
        if last == '\n' {
            let body = s.substring_char(0, n - 1);
            proof {
                assert(body@ =~= s@.drop_last());
            }
            split_on(body, '\n')
        } else {
            split_on(s, '\n')
        }
    };
    let ghost rawviews = raw@.map_values(|l: String| l@);
    proof {
        assert(spec_lines(s@) == rawviews.map_values(|l: Seq<char>| spec_strip_cr(l)));
    }
    let mut r: Vec<String> = Vec::new();
    let mut i: usize = 0;
    proof {
        assert(r@.map_values(|l: String| l@) =~= rawviews.subrange(0, 0).map_values(
            |l: Seq<char>| spec_strip_cr(l),
        ));
    }
    while i < raw.len()
        invariant
            i <= raw@.len(),
            rawviews == raw@.map_values(|l: String| l@),
            r@.map_values(|l: String| l@) == rawviews.subrange(0, i as int).map_values(
                |l: Seq<char>| spec_strip_cr(l),
            ),
        decreases raw@.len() - i,
    {
        let ghost prev = r@.map_values(|l: String| l@);
        proof {
            assert(raw@[i as int]@ == rawviews[i as int]);
        }
        let m = raw[i].as_str().unicode_len();
        if m > 0 && raw[i].as_str().get_char(m - 1) == '\r' {
            let piece = raw[i].as_str().substring_char(0, m - 1);
            let stripped = piece.to_owned();
            proof {
                assert(stripped@ =~= spec_strip_cr(rawviews[i as int]));
            }
            r.push(stripped);
        } else {
            r.push(raw[i].clone());
        }
        proof {
            assert(r@.map_values(|l: String| l@) =~= prev.push(
                spec_strip_cr(rawviews[i as int]),
            ));
            assert(rawviews.subrange(0, i + 1).map_values(|l: Seq<char>| spec_strip_cr(l))
                =~= rawviews.subrange(0, i as int).map_values(
                |l: Seq<char>| spec_strip_cr(l),
            ).push(spec_strip_cr(rawviews[i as int])));
        }
        i += 1;
    }
    proof {
        assert(rawviews.subrange(0, rawviews.len() as int) =~= rawviews);
    }
    r
}

/// The lines joined with a newline between consecutive lines (none at the
/// end).
pub open spec fn spec_join_nl(ls: Seq<Seq<char>>) -> Seq<char>
    decreases ls.len(),
{
    if ls.len() == 0 {
        Seq::empty()
    } else if ls.len() == 1 {
        ls[0]
    } else {
        ls[0] + seq!['\n'] + spec_join_nl(ls.drop_first())
    }
}

pub proof fn lemma_join_nl_push(ls: Seq<Seq<char>>, x: Seq<char>)
    ensures
        ls.len() == 0 ==> spec_join_nl(ls.push(x)) =~= x,
        ls.len() > 0 ==> spec_join_nl(ls.push(x)) =~= spec_join_nl(ls) + seq!['\n'] + x,
    decreases ls.len(),
{
    if ls.len() == 0 {
        assert(ls.push(x)[0] == x);
    } else if ls.len() == 1 {
        assert(ls.push(x).drop_first() =~= seq![x]);
        assert(spec_join_nl(seq![x]) == x);
        assert(ls.push(x)[0] == ls[0]);
    } else {
        lemma_join_nl_push(ls.drop_first(), x);
        assert(ls.push(x).drop_first() =~= ls.drop_first().push(x));
        assert(ls.push(x)[0] == ls[0]);
        assert(spec_join_nl(ls.push(x)) =~= ls[0] + seq!['\n'] + (spec_join_nl(ls.drop_first())
            + seq!['\n'] + x));
    }
}

/// Joins lines with a newline between consecutive lines.
pub fn join_lines(v: &Vec<String>) -> (r: String)
    ensures
        r@ == spec_join_nl(v@.map_values(|l: String| l@)),
{
    let mut r = String::new();
    let mut i: usize = 0;
    proof {
        assert(v@.subrange(0, 0).map_values(|l: String| l@) =~= Seq::<Seq<char>>::empty());
    }
    while i < v.len()
        invariant
            i <= v@.len(),
            r@ == spec_join_nl(v@.subrange(0, i as int).map_values(|l: String| l@)),
        decreases v@.len() - i,
    {
        proof {
            lemma_join_nl_push(
                v@.subrange(0, i as int).map_values(|l: String| l@),
                v@[i as int]@,
            );
            assert(v@.subrange(0, i + 1).map_values(|l: String| l@) =~= v@.subrange(
                0,
                i as int,
            ).map_values(|l: String| l@).push(v@[i as int]@));
        }
        if i > 0 {
            let nl = "\n";
            proof {
                reveal_strlit("\n");
                assert(nl@ =~= seq!['\n']);
            }
            r.append(nl);
        }
        r.append(v[i].as_str());
        i += 1;
    }
    proof {
        assert(v@.subrange(0, v@.len() as int) =~= v@);
    }
    r
}

/// The lines each terminated by a newline, concatenated.
pub open spec fn spec_unlines(ls: Seq<Seq<char>>) -> Seq<char>
    decreases ls.len(),
{
    if ls.len() == 0 {
        Seq::empty()
    } else {
        ls[0] + seq!['\n'] + spec_unlines(ls.drop_first())
    }
}

pub proof fn lemma_unlines_push(ls: Seq<Seq<char>>, x: Seq<char>)
    ensures
        spec_unlines(ls.push(x)) =~= spec_unlines(ls) + x + seq!['\n'],
    decreases ls.len(),
{
    if ls.len() == 0 {
        assert(ls.push(x)[0] == x);
        assert(ls.push(x).drop_first() =~= Seq::<Seq<char>>::empty());
        assert(spec_unlines(Seq::<Seq<char>>::empty()) == Seq::<char>::empty());
    } else {
        lemma_unlines_push(ls.drop_first(), x);
        assert(ls.push(x).drop_first() =~= ls.drop_first().push(x));
        assert(ls.push(x)[0] == ls[0]);
        assert(spec_unlines(ls.push(x)) =~= ls[0] + seq!['\n'] + (spec_unlines(ls.drop_first())
            + x + seq!['\n']));
    }
}

/// Concatenates the lines, terminating every line with a newline.
pub fn unlines(v: &Vec<String>) -> (r: String)
    ensures
        r@ == spec_unlines(v@.map_values(|l: String| l@)),
{
    let mut r = String::new();
    let mut i: usize = 0;
    proof {
        assert(v@.subrange(0, 0).map_values(|l: String| l@) =~= Seq::<Seq<char>>::empty());
    }
    while i < v.len()
        invariant
            i <= v@.len(),
            r@ == spec_unlines(v@.subrange(0, i as int).map_values(|l: String| l@)),
        decreases v@.len() - i,
    {
        proof {
            lemma_unlines_push(
                v@.subrange(0, i as int).map_values(|l: String| l@),
                v@[i as int]@,
            );
            assert(v@.subrange(0, i + 1).map_values(|l: String| l@) =~= v@.subrange(
                0,
                i as int,
            ).map_values(|l: String| l@).push(v@[i as int]@));
        }
        r.append(v[i].as_str());
        let nl = "\n";
        proof {
            reveal_strlit("\n");
            assert(nl@ =~= seq!['\n']);
        }
        r.append(nl);
        i += 1;
    }
    proof {
        assert(v@.subrange(0, v@.len() as int) =~= v@);
    }
    r
}

/// The whitespace characters that separate fields of command output.
pub open spec fn is_ws(c: char) -> bool {
    c == ' ' || c == '\t' || c == '\r'
}

/// The maximal runs of non-whitespace characters of `s`, in order.
pub open spec fn spec_tokens(s: Seq<char>) -> Seq<Seq<char>>
    decreases s.len(),
{
    if s.len() == 0 {
        Seq::empty()
    } else if is_ws(s[0]) {
        spec_tokens(s.drop_first())
    } else {
        let rest = s.drop_first();
        let r = spec_tokens(rest);
        if rest.len() > 0 && !is_ws(rest[0]) {
            r.update(0, seq![s[0]] + r[0])
        } else {
            seq![seq![s[0]]] + r
        }
    }
}

pub proof fn lemma_tokens_first_nonws(s: Seq<char>)
    requires
        s.len() > 0,
        !is_ws(s[0]),
    ensures
        spec_tokens(s).len() >= 1,
    decreases s.len(),
{
    let rest = s.drop_first();
    if rest.len() > 0 && !is_ws(rest[0]) {
        lemma_tokens_first_nonws(rest);
    }
}

pub proof fn lemma_tokens_last_nonws(s: Seq<char>)
    requires
        s.len() > 0,
        !is_ws(s.last()),
    ensures
        spec_tokens(s).len() >= 1,
    decreases s.len(),
{
    if s.len() == 1 {
    } else {
        let rest = s.drop_first();
        assert(rest.last() == s.last());
        lemma_tokens_last_nonws(rest);
        if !is_ws(s[0]) {
            lemma_tokens_first_nonws(s);
        }
    }
}

/// Appending a character either closes no token (whitespace), opens a new
/// one-character token, or extends the token still open at the end.
#[verifier::rlimit(50)]
pub proof fn lemma_tokens_push(s: Seq<char>, c: char)
    ensures
        is_ws(c) ==> spec_tokens(s.push(c)) =~~= spec_tokens(s),
        !is_ws(c) && (s.len() == 0 || is_ws(s.last())) ==> spec_tokens(s.push(c))
            =~~= spec_tokens(s).push(seq![c]),
        !is_ws(c) && s.len() > 0 && !is_ws(s.last()) ==> spec_tokens(s.push(c))
            =~~= spec_tokens(s).update(
            spec_tokens(s).len() - 1,
            spec_tokens(s).last().push(c),
        ),
    decreases s.len(),
{
    if !is_ws(c) && s.len() > 0 && !is_ws(s.last()) {
        lemma_tokens_last_nonws(s);
    }
    if s.len() == 0 {
        assert(s.push(c)[0] == c);
        assert(s.push(c).drop_first() =~= Seq::<char>::empty());
        assert(spec_tokens(Seq::<char>::empty()) =~~= Seq::<Seq<char>>::empty());
        if !is_ws(c) {
            assert(spec_tokens(s.push(c)) =~~= seq![seq![c]]);
            assert(spec_tokens(s).push(seq![c]) =~~= seq![seq![c]]);
        }
    } else {
        let q = s.drop_first();
        lemma_tokens_push(q, c);
        assert(s.push(c).drop_first() =~= q.push(c));
        assert(s.push(c)[0] == s[0]);
        if q.len() > 0 {
            assert(q.last() == s.last());
            assert(q.push(c)[0] == q[0]);
        } else {
            assert(s.last() == s[0]);
            assert(q.push(c)[0] == c);
        }
        if is_ws(s[0]) {
            // tokens(s.push(c)) == tokens(q.push(c)) and tokens(s) == tokens(q);
            // the claim is the induction hypothesis verbatim.
            if q.len() == 0 {
                assert(spec_tokens(s.push(c)) =~~= spec_tokens(q.push(c)));
            }
        } else {
            let r0 = spec_tokens(q);
            lemma_tokens_first_nonws(s);
            if q.len() == 0 {
                if is_ws(c) {
                    assert(spec_tokens(q.push(c)) =~~= Seq::<Seq<char>>::empty());
                    assert(spec_tokens(s.push(c)) =~~= seq![seq![s[0]]]);
                    assert(spec_tokens(s) =~~= seq![seq![s[0]]]);
                } else {
                    assert(spec_tokens(q.push(c)) =~~= seq![seq![c]]);
                    assert(spec_tokens(s.push(c)) =~~= seq![seq![s[0]] + seq![c]]);
                    assert(spec_tokens(s) =~~= seq![seq![s[0]]]);
                    assert(seq![s[0]] + seq![c] =~= seq![s[0]].push(c));
                }
            } else if is_ws(q[0]) {
                // A one-character token at s[0]; the rest starts over.
                assert(spec_tokens(s) =~~= seq![seq![s[0]]] + r0);
                if is_ws(c) {
                    assert(spec_tokens(s.push(c)) =~~= seq![seq![s[0]]] + spec_tokens(
                        q.push(c),
                    ));
                    assert(spec_tokens(s.push(c)) =~~= spec_tokens(s));
                } else if is_ws(q.last()) {
                    assert(spec_tokens(s.push(c)) =~~= seq![seq![s[0]]] + r0.push(seq![c]));
                    assert(spec_tokens(s.push(c)) =~~= spec_tokens(s).push(seq![c]));
                } else {
                    lemma_tokens_last_nonws(q);
                    assert(spec_tokens(s.push(c)) =~~= seq![seq![s[0]]] + r0.update(
                        r0.len() - 1,
                        r0.last().push(c),
                    ));
                    assert(spec_tokens(s.push(c)) =~~= spec_tokens(s).update(
                        spec_tokens(s).len() - 1,
                        spec_tokens(s).last().push(c),
                    ));
                }
            } else {
                // s[0] continues into the first token of q.
                lemma_tokens_first_nonws(q);
                assert(spec_tokens(s) =~~= r0.update(0, seq![s[0]] + r0[0]));
                if is_ws(c) {
                    assert(spec_tokens(s.push(c)) =~~= spec_tokens(q.push(c)).update(
                        0,
                        seq![s[0]] + spec_tokens(q.push(c))[0],
                    ));
                    assert(spec_tokens(s.push(c)) =~~= spec_tokens(s));
                } else if is_ws(q.last()) {
                    assert(spec_tokens(q.push(c)) =~~= r0.push(seq![c]));
                    assert(spec_tokens(s.push(c)) =~~= r0.push(seq![c]).update(
                        0,
                        seq![s[0]] + r0[0],
                    ));
                    assert(spec_tokens(s.push(c)) =~~= spec_tokens(s).push(seq![c]));
                } else {
                    lemma_tokens_last_nonws(q);
                    let r1 = r0.update(r0.len() - 1, r0.last().push(c));
                    assert(spec_tokens(q.push(c)) =~~= r1);
                    assert(spec_tokens(s.push(c)) =~~= r1.update(0, seq![s[0]] + r1[0]));
                    if r0.len() == 1 {
                        assert((seq![s[0]] + r0[0]).push(c) =~= seq![s[0]] + r0[0].push(c));
                        assert(spec_tokens(s.push(c)) =~~= spec_tokens(s).update(
                            spec_tokens(s).len() - 1,
                            spec_tokens(s).last().push(c),
                        ));
                    } else {
                        assert(spec_tokens(s.push(c)) =~~= spec_tokens(s).update(
                            spec_tokens(s).len() - 1,
                            spec_tokens(s).last().push(c),
                        ));
                    }
                }
            }
        }
    }
}

/// Whether `c` separates fields of command output.
pub fn is_ws_char(c: char) -> (r: bool)
    ensures
        r == is_ws(c),
{
    c == ' ' || c == '\t' || c == '\r'
}

/// Splits a line into its whitespace-separated fields.
pub fn tokens_of(s: &str) -> (r: Vec<String>)
    ensures
        r@.map_values(|l: String| l@) == spec_tokens(s@),
{
    let n = s.unicode_len();
    let mut r: Vec<String> = Vec::new();
    let mut cur = String::new();
    let mut i: usize = 0;
    proof {
        assert(s@.subrange(0, 0) =~= Seq::<char>::empty());
        assert(spec_tokens(s@.subrange(0, 0)) =~= r@.map_values(|l: String| l@));
    }
    while i < n
        invariant
            i <= n,
            n == s@.len(),
            cur@.len() > 0 ==> spec_tokens(s@.subrange(0, i as int)) == r@.map_values(
                |l: String| l@,
            ).push(cur@),
            cur@.len() == 0 ==> spec_tokens(s@.subrange(0, i as int)) == r@.map_values(
                |l: String| l@,
            ),
            cur@.len() > 0 ==> i > 0 && !is_ws(s@[i - 1]),
            cur@.len() == 0 ==> (i == 0 || is_ws(s@[i - 1])),
        decreases n - i,
    {
        let c = s.get_char(i);
        let ghost p = s@.subrange(0, i as int);
        proof {
            lemma_tokens_push(p, c);
            assert(p.push(c) =~= s@.subrange(0, i + 1));
            if i > 0 {
                assert(p.last() == s@[i - 1]);
            }
        }
        if is_ws_char(c) {
            if cur.unicode_len() > 0 {
                let ghost prev = r@.map_values(|l: String| l@);
                let ghost oldcur = cur@;
                r.push(cur);
                cur = String::new();
                proof {
                    assert(r@.map_values(|l: String| l@) =~= prev.push(oldcur));
                }
            }
        } else {
            if cur.unicode_len() == 0 {
                push_char(&mut cur, c);
                proof {
                    assert(cur@ =~= seq![c]);
                }
            } else {
                let ghost prev = r@.map_values(|l: String| l@);
                let ghost oldcur = cur@;
                push_char(&mut cur, c);
                proof {
                    assert(prev.push(oldcur).update(prev.len() as int, oldcur.push(c)) =~~=
                        prev.push(oldcur.push(c)));
                }
            }
        }
        i += 1;
    }
    proof {
        assert(s@.subrange(0, n as int) =~= s@);
    }
    if cur.unicode_len() > 0 {
        let ghost prev = r@.map_values(|l: String| l@);
        let ghost oldcur = cur@;
        r.push(cur);
        proof {
            assert(r@.map_values(|l: String| l@) =~= prev.push(oldcur));
        }
    }
    r
}

/// `s` without leading whitespace.
pub open spec fn spec_trim_start(s: Seq<char>) -> Seq<char>
    decreases s.len(),
{
    if s.len() > 0 && is_ws(s[0]) {
        spec_trim_start(s.drop_first())
    } else {
        s
    }
}

/// `s` without trailing whitespace.
pub open spec fn spec_trim_end(s: Seq<char>) -> Seq<char>
    decreases s.len(),
{
    if s.len() > 0 && is_ws(s.last()) {
        spec_trim_end(s.drop_last())
    } else {
        s
    }
}

/// `s` without leading and trailing whitespace.
pub open spec fn spec_trim(s: Seq<char>) -> Seq<char> {
    spec_trim_end(spec_trim_start(s))
}

/// Strips leading and trailing whitespace.
pub fn trim_ws(s: &str) -> (r: String)
    ensures
        r@ == spec_trim(s@),
{
    let n = s.unicode_len();
    let mut a: usize = 0;
    proof {
        assert(s@.subrange(0, n as int) =~= s@);
    }
    loop
        invariant
            a <= n,
            n == s@.len(),
            spec_trim_start(s@) == spec_trim_start(s@.subrange(a as int, n as int)),
        ensures
            a <= n,
            n == s@.len(),
            spec_trim_start(s@) == s@.subrange(a as int, n as int),
        decreases n - a,
    {
        if a >= n {
            proof {
                assert(s@.subrange(a as int, n as int) =~= Seq::<char>::empty());
            }
            break ;
        }
        let c = s.get_char(a);
        if !is_ws_char(c) {
            proof {
                assert(s@.subrange(a as int, n as int)[0] == s@[a as int]);
            }
            break ;
        }
        proof {
            let cur = s@.subrange(a as int, n as int);
            assert(cur[0] == s@[a as int]);
            assert(cur.drop_first() =~= s@.subrange(a + 1, n as int));
        }
        a += 1;
    }
    let mut b: usize = n;
    loop
        invariant
            a <= b <= n,
            n == s@.len(),
            spec_trim_start(s@) == s@.subrange(a as int, n as int),
            spec_trim_end(s@.subrange(a as int, n as int)) == spec_trim_end(
                s@.subrange(a as int, b as int),
            ),
        ensures
            a <= b <= n,
            n == s@.len(),
            spec_trim(s@) == s@.subrange(a as int, b as int),
        decreases b - a,
    {
        if b <= a {
            proof {
                assert(s@.subrange(a as int, b as int) =~= Seq::<char>::empty());
            }
            break ;
        }
        let c = s.get_char(b - 1);
        if !is_ws_char(c) {
            proof {
                assert(s@.subrange(a as int, b as int).last() == s@[b - 1]);
            }
            break ;
        }
        proof {
            let cur = s@.subrange(a as int, b as int);
            assert(cur.last() == s@[b - 1]);
            assert(cur.drop_last() =~= s@.subrange(a as int, b - 1));
        }
        b -= 1;
    }
    let piece = s.substring_char(a, b);
    piece.to_owned()
}

/// Whether two string slices hold the same characters.
pub fn str_eq(a: &str, b: &str) -> (r: bool)
    ensures
        r == (a@ == b@),
{
    let na = a.unicode_len();
    let nb = b.unicode_len();
    if na != nb {
        return false;
    }
    let mut i: usize = 0;
    while i < na
        invariant
            i <= na,
            na == a@.len(),
            nb == b@.len(),
            na == nb,
            forall|j: int| 0 <= j < i ==> a@[j] == b@[j],
        decreases na - i,
    {
        if a.get_char(i) != b.get_char(i) {
            return false;
        }
        i += 1;
    }
    proof {
        assert(a@ =~= b@);
    }
    true
}

/// Whether `s` begins with the characters of `p`.
pub open spec fn spec_starts_with(s: Seq<char>, p: Seq<char>) -> bool {
    s.len() >= p.len() && s.subrange(0, p.len() as int) == p
}

/// Whether `s` begins with the characters of `p`.
pub fn starts_with_str(s: &str, p: &str) -> (r: bool)
    ensures
        r == spec_starts_with(s@, p@),
{
    let ns = s.unicode_len();
    let np = p.unicode_len();
    if ns < np {
        return false;
    }
    let head = s.substring_char(0, np);
    str_eq(head, p)
}

/// Whether `p` occurs in `s` starting at position `j`.
pub open spec fn spec_match_at(s: Seq<char>, p: Seq<char>, j: int) -> bool {
    0 <= j && j + p.len() <= s.len() && s.subrange(j, j + p.len()) == p
}

/// The largest position `<= j` where `p` occurs in `s`, or -1 if none.
pub open spec fn spec_find_last_from(s: Seq<char>, p: Seq<char>, j: int) -> int
    decreases j + 1,
{
    if j < 0 {
        -1
    } else if spec_match_at(s, p, j) {
        j
    } else {
        spec_find_last_from(s, p, j - 1)
    }
}

/// The part of `s` after its last occurrence of `p`, or all of `s` when
/// `p` does not occur in it.
pub open spec fn spec_after_last(s: Seq<char>, p: Seq<char>) -> Seq<char> {
    let j = spec_find_last_from(s, p, s.len() - p.len());
    if j < 0 {
        s
    } else {
        s.subrange(j + p.len(), s.len() as int)
    }
}

/// The suffix of `s` after the last occurrence of `p`, or all of `s` when
/// there is none.
pub fn after_last(s: &str, p: &str) -> (r: String)
    ensures
        r@ == spec_after_last(s@, p@),
{
    let n = s.unicode_len();
    let m = p.unicode_len();
    if m > n {
        proof {
            assert(spec_find_last_from(s@, p@, n - m) == -1);
        }
        return s.to_owned();
    }
    let mut j: usize = n - m;
    loop
        invariant
            j <= n - m,
            n == s@.len(),
            m == p@.len(),
            m <= n,
            spec_find_last_from(s@, p@, n - m) == spec_find_last_from(s@, p@, j as int),
        ensures
            spec_find_last_from(s@, p@, n - m) == -1,
        decreases j,
    {
        let piece = s.substring_char(j, j + m);
        if str_eq(piece, p) {
            proof {
                assert(spec_match_at(s@, p@, j as int));
                assert(spec_find_last_from(s@, p@, j as int) == j as int);
            }
            let tail = s.substring_char(j + m, n);
            return tail.to_owned();
        }
        proof {
            assert(!spec_match_at(s@, p@, j as int));
        }
        if j == 0 {
            proof {
                assert(spec_find_last_from(s@, p@, 0) == spec_find_last_from(s@, p@, -1));
            }
            break ;
        }
        j -= 1;
    }
    s.to_owned()
}

} // verus!
