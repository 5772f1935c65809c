use vstd::prelude::*;
use crate::text::{lines_of, push_char, spec_lines, spec_unlines, str_eq, unlines};

verus! {

/// The decimal digit character for `d`.
pub open spec fn spec_digit(d: int) -> char {
    if d == 0 {
        '0'
    } else if d == 1 {
        '1'
    } else if d == 2 {
        '2'
    } else if d == 3 {
        '3'
    } else if d == 4 {
        '4'
    } else if d == 5 {
        '5'
    } else if d == 6 {
        '6'
    } else if d == 7 {
        '7'
    } else if d == 8 {
        '8'
    } else {
        '9'
    }
}

/// The decimal digits of `n`, most significant first.
pub open spec fn spec_dec(n: int) -> Seq<char>
    decreases n,
{
    if n < 10 {
        seq![spec_digit(n)]
    } else {
        spec_dec(n / 10).push(spec_digit(n % 10))
    }
}

fn digit_char(d: usize) -> (c: char)
    requires
        d < 10,
    ensures
        c == spec_digit(d as int),
{
    match d {
        0 => '0',
        1 => '1',
        2 => '2',
        3 => '3',
        4 => '4',
        5 => '5',
        6 => '6',
        7 => '7',
        8 => '8',
        _ => '9',
    }
}

/// Writes `n` in decimal.
pub fn dec_string(n: usize) -> (r: String)
    ensures
        r@ == spec_dec(n as int),
    decreases n,
{
    if n < 10 {
        let mut r = String::new();
        push_char(&mut r, digit_char(n));
        proof {
            assert(r@ =~= seq![spec_digit(n as int)]);
        }
        r
    } else {
        let mut r = dec_string(n / 10);
        push_char(&mut r, digit_char(n % 10));
        r
    }
}

/// Each line with `mark` prepended.
pub open spec fn spec_marked(mark: char, ls: Seq<Seq<char>>) -> Seq<Seq<char>> {
    ls.map_values(|l: Seq<char>| seq![mark] + l)
}

fn make_header(os: usize, oc: usize, ns: usize, nc: usize) -> (r: String)
    ensures
        r@ == spec_hunk_header(os as int, oc as int, ns as int, nc as int),
{
    let mut header = "@@ -".to_owned();
    let os_s = dec_string(os);
    header.append(os_s.as_str());
    header.append(",");
    let oc_s = dec_string(oc);
    header.append(oc_s.as_str());
    header.append(" +");
    let ns_s = dec_string(ns);
    header.append(ns_s.as_str());
    header.append(",");
    let nc_s = dec_string(nc);
    header.append(nc_s.as_str());
    header.append(" @@");
    proof {
        assert(header@ =~= spec_hunk_header(os as int, oc as int, ns as int, nc as int));
    }
    header
}

/// One step of a line alignment: a line shared by both sides, one only
/// the base holds, or one only the target holds.
#[derive(Clone, Copy, Debug, PartialEq, Eq, Structural)]
pub enum EditKind {
    Keep,
    Del,
    Ins,
}

/// The marker a diff line carries for each alignment step.
pub open spec fn spec_op_mark(k: EditKind) -> char {
    match k {
        EditKind::Keep => ' ',
        EditKind::Del => '-',
        EditKind::Ins => '+',
    }
}

/// One rendered diff line: the step's marker followed by its line.
pub open spec fn spec_op_line(o: (EditKind, Seq<char>)) -> Seq<char> {
    seq![spec_op_mark(o.0)] + o.1
}

/// An alignment of the two line listings, scanned from the front: equal
/// heads are kept; a head that does not occur in the other side's rest
/// is removed or inserted; when both heads occur ahead on the other
/// side, the base's head is removed first. Every base line appears once
/// as kept or removed, every target line once as kept or inserted, in
/// order.
pub open spec fn spec_align(a: Seq<Seq<char>>, b: Seq<Seq<char>>) -> Seq<(EditKind, Seq<char>)>
    decreases a.len() + b.len(),
{
    if a.len() == 0 && b.len() == 0 {
        Seq::<(EditKind, Seq<char>)>::empty()
    } else if a.len() == 0 {
        seq![(EditKind::Ins, b[0])] + spec_align(a, b.drop_first())
    } else if b.len() == 0 {
        seq![(EditKind::Del, a[0])] + spec_align(a.drop_first(), b)
    } else if a[0] == b[0] {
        seq![(EditKind::Keep, a[0])] + spec_align(a.drop_first(), b.drop_first())
    } else if !b.contains(a[0]) {
        seq![(EditKind::Del, a[0])] + spec_align(a.drop_first(), b)
    } else if !a.contains(b[0]) {
        seq![(EditKind::Ins, b[0])] + spec_align(a, b.drop_first())
    } else {
        seq![(EditKind::Del, a[0])] + spec_align(a.drop_first(), b)
    }
}

/// Whether the alignment changes anything at all.
pub open spec fn spec_has_change(ops: Seq<(EditKind, Seq<char>)>) -> bool {
    exists|i: int| 0 <= i < ops.len() && ops[i].0 != EditKind::Keep
}

/// How many base lines one step consumes.
pub open spec fn spec_old_step(k: EditKind) -> int {
    if k == EditKind::Ins {
        0
    } else {
        1
    }
}

/// How many target lines one step consumes.
pub open spec fn spec_new_step(k: EditKind) -> int {
    if k == EditKind::Del {
        0
    } else {
        1
    }
}

/// Whether the step at position `i` belongs to a hunk: it is a change,
/// or a change lies within `ctx` steps of it. Two changes whose context
/// regions touch thereby share one hunk.
pub open spec fn spec_included_op(ops: Seq<(EditKind, Seq<char>)>, ctx: int, i: int) -> bool {
    exists|j: int| 0 <= j < ops.len() && ops[j].0 != EditKind::Keep && i - ctx <= j <= i + ctx
}

/// The first step at or after `i` that belongs to no hunk.
pub open spec fn spec_run_end_op(ops: Seq<(EditKind, Seq<char>)>, ctx: int, i: int) -> int
    decreases ops.len() - i,
{
    if i < 0 || i >= ops.len() || !spec_included_op(ops, ctx, i) {
        i
    } else {
        spec_run_end_op(ops, ctx, i + 1)
    }
}

/// The number of base lines the steps `i..e` consume.
pub open spec fn spec_old_count(ops: Seq<(EditKind, Seq<char>)>, i: int, e: int) -> int
    decreases e - i,
{
    if i < 0 || i >= e || i >= ops.len() {
        0
    } else {
        spec_old_step(ops[i].0) + spec_old_count(ops, i + 1, e)
    }
}

/// The number of target lines the steps `i..e` consume.
pub open spec fn spec_new_count(ops: Seq<(EditKind, Seq<char>)>, i: int, e: int) -> int
    decreases e - i,
{
    if i < 0 || i >= e || i >= ops.len() {
        0
    } else {
        spec_new_step(ops[i].0) + spec_new_count(ops, i + 1, e)
    }
}

/// The hunks from step `i` on, with `op` and `np` base and target lines
/// already consumed: each maximal run of steps that belong to a hunk,
/// under its header. Line numbers count from one; an empty side is
/// addressed by the line before it, counted from zero.
pub open spec fn spec_hunks_ops(
    ops: Seq<(EditKind, Seq<char>)>,
    ctx: int,
    i: int,
    op: int,
    np: int,
) -> Seq<Seq<char>>
    decreases ops.len() - i,
{
    if i < 0 || i >= ops.len() {
        Seq::<Seq<char>>::empty()
    } else if !spec_included_op(ops, ctx, i) {
        spec_hunks_ops(ops, ctx, i + 1, op + spec_old_step(ops[i].0), np + spec_new_step(ops[i].0))
    } else {
        let e0 = spec_run_end_op(ops, ctx, i);
        let e1 = if e0 <= ops.len() {
            e0
        } else {
            ops.len() as int
        };
        let e = if e1 > i {
            e1
        } else {
            i + 1
        };
        let oc = spec_old_count(ops, i, e);
        let nc = spec_new_count(ops, i, e);
        seq![
            spec_hunk_header(
                if oc == 0 {
                    op
                } else {
                    op + 1
                },
                oc,
                if nc == 0 {
                    np
                } else {
                    np + 1
                },
                nc,
            ),
        ] + ops.subrange(i, e).map_values(|o: (EditKind, Seq<char>)| spec_op_line(o))
            + spec_hunks_ops(ops, ctx, e, op + oc, np + nc)
    }
}

/// Whether `x` occurs among the lines from position `from` on.
fn contains_from(v: &Vec<String>, from: usize, x: &str) -> (r: bool)
    requires
        from <= v@.len(),
    ensures
        r == v@.map_values(|l: String| l@).skip(from as int).contains(x@),
{
    let ghost w = v@.map_values(|l: String| l@).skip(from as int);
    let mut j: usize = from;
    while j < v.len()
        invariant
            from <= j <= v@.len(),
            w == v@.map_values(|l: String| l@).skip(from as int),
            forall|m: int| 0 <= m < j - from ==> w[m] != x@,
        decreases v@.len() - j,
    {
        proof {
            assert(w[j - from] == v@[j as int]@);
        }
        if str_eq(v[j].as_str(), x) {
            proof {
                assert(w[j - from] == x@);
                assert(w.contains(x@));
            }
            return true;
        }
        j += 1;
    }
    proof {
        assert(!w.contains(x@));
    }
    false
}

/// Aligns the two line listings.
fn align_lines(a: &Vec<String>, b: &Vec<String>) -> (r: Vec<(EditKind, String)>)
    ensures
        r@.map_values(|p: (EditKind, String)| (p.0, p.1@)) == spec_align(
            a@.map_values(|l: String| l@),
            b@.map_values(|l: String| l@),
        ),
{
    let ghost av = a@.map_values(|l: String| l@);
    let ghost bv = b@.map_values(|l: String| l@);
    let mut r: Vec<(EditKind, String)> = Vec::new();
    let mut i: usize = 0;
    let mut j: usize = 0;
    proof {
        assert(av.skip(0) =~= av);
        assert(bv.skip(0) =~= bv);
        assert(r@.map_values(|p: (EditKind, String)| (p.0, p.1@))
            =~= Seq::<(EditKind, Seq<char>)>::empty());
    }
    while i < a.len() || j < b.len()
        invariant
            i <= av.len(),
            j <= bv.len(),
            av == a@.map_values(|l: String| l@),
            bv == b@.map_values(|l: String| l@),
            spec_align(av, bv) == r@.map_values(|p: (EditKind, String)| (p.0, p.1@))
                + spec_align(av.skip(i as int), bv.skip(j as int)),
        decreases (av.len() - i) + (bv.len() - j),
    {
        let ghost x = av.skip(i as int);
        let ghost y = bv.skip(j as int);
        let ghost done = r@.map_values(|p: (EditKind, String)| (p.0, p.1@));
        proof {
            if i < av.len() {
                assert(x[0] == av[i as int]);
                assert(av[i as int] == a@[i as int]@);
                assert(x.drop_first() =~= av.skip(i + 1));
            }
            if j < bv.len() {
                assert(y[0] == bv[j as int]);
                assert(bv[j as int] == b@[j as int]@);
                assert(y.drop_first() =~= bv.skip(j + 1));
            }
        }
        if i >= a.len() {
            r.push((EditKind::Ins, b[j].clone()));
            proof {
                assert(r@.map_values(|p: (EditKind, String)| (p.0, p.1@)) =~= done.push(
                    (EditKind::Ins, y[0]),
                ));
                assert(spec_align(x, y) == seq![(EditKind::Ins, y[0])] + spec_align(
                    x,
                    y.drop_first(),
                ));
                assert(done + spec_align(x, y) =~= done.push((EditKind::Ins, y[0]))
                    + spec_align(x, y.drop_first()));
            }
            j += 1;
        } else if j >= b.len() {
            r.push((EditKind::Del, a[i].clone()));
            proof {
                assert(r@.map_values(|p: (EditKind, String)| (p.0, p.1@)) =~= done.push(
                    (EditKind::Del, x[0]),
                ));
                assert(spec_align(x, y) == seq![(EditKind::Del, x[0])] + spec_align(
                    x.drop_first(),
                    y,
                ));
                assert(done + spec_align(x, y) =~= done.push((EditKind::Del, x[0]))
                    + spec_align(x.drop_first(), y));
            }
            i += 1;
        } else if str_eq(a[i].as_str(), b[j].as_str()) {
            r.push((EditKind::Keep, a[i].clone()));
            proof {
                assert(r@.map_values(|p: (EditKind, String)| (p.0, p.1@)) =~= done.push(
                    (EditKind::Keep, x[0]),
                ));
                assert(spec_align(x, y) == seq![(EditKind::Keep, x[0])] + spec_align(
                    x.drop_first(),
                    y.drop_first(),
                ));
                assert(done + spec_align(x, y) =~= done.push((EditKind::Keep, x[0]))
                    + spec_align(x.drop_first(), y.drop_first()));
            }
            i += 1;
            j += 1;
        } else if !contains_from(b, j, a[i].as_str()) {
            r.push((EditKind::Del, a[i].clone()));
            proof {
                assert(r@.map_values(|p: (EditKind, String)| (p.0, p.1@)) =~= done.push(
                    (EditKind::Del, x[0]),
                ));
                assert(spec_align(x, y) == seq![(EditKind::Del, x[0])] + spec_align(
                    x.drop_first(),
                    y,
                ));
                assert(done + spec_align(x, y) =~= done.push((EditKind::Del, x[0]))
                    + spec_align(x.drop_first(), y));
            }
            i += 1;
        } else if !contains_from(a, i, b[j].as_str()) {
            r.push((EditKind::Ins, b[j].clone()));
            proof {
                assert(r@.map_values(|p: (EditKind, String)| (p.0, p.1@)) =~= done.push(
                    (EditKind::Ins, y[0]),
                ));
                assert(spec_align(x, y) == seq![(EditKind::Ins, y[0])] + spec_align(
                    x,
                    y.drop_first(),
                ));
                assert(done + spec_align(x, y) =~= done.push((EditKind::Ins, y[0]))
                    + spec_align(x, y.drop_first()));
            }
            j += 1;
        } else {
            r.push((EditKind::Del, a[i].clone()));
            proof {
                assert(r@.map_values(|p: (EditKind, String)| (p.0, p.1@)) =~= done.push(
                    (EditKind::Del, x[0]),
                ));
                assert(spec_align(x, y) == seq![(EditKind::Del, x[0])] + spec_align(
                    x.drop_first(),
                    y,
                ));
                assert(done + spec_align(x, y) =~= done.push((EditKind::Del, x[0]))
                    + spec_align(x.drop_first(), y));
            }
            i += 1;
        }
    }
    proof {
        assert(av.skip(av.len() as int) =~= Seq::<Seq<char>>::empty());
        assert(bv.skip(bv.len() as int) =~= Seq::<Seq<char>>::empty());
        assert(spec_align(Seq::<Seq<char>>::empty(), Seq::<Seq<char>>::empty())
            =~= Seq::<(EditKind, Seq<char>)>::empty());
        assert(r@.map_values(|p: (EditKind, String)| (p.0, p.1@)) =~= spec_align(av, bv));
    }
    r
}

/// Whether the aligned listings differ anywhere.
fn has_change_ops(ops: &Vec<(EditKind, String)>) -> (r: bool)
    ensures
        r == spec_has_change(ops@.map_values(|p: (EditKind, String)| (p.0, p.1@))),
{
    let ghost ov = ops@.map_values(|p: (EditKind, String)| (p.0, p.1@));
    let mut i: usize = 0;
    while i < ops.len()
        invariant
            i <= ov.len(),
            ov == ops@.map_values(|p: (EditKind, String)| (p.0, p.1@)),
            forall|m: int| 0 <= m < i ==> ov[m].0 == EditKind::Keep,
        decreases ov.len() - i,
    {
        proof {
            assert(ov[i as int].0 == ops@[i as int].0);
        }
        if ops[i].0 != EditKind::Keep {
            proof {
                assert(spec_has_change(ov));
            }
            return true;
        }
        i += 1;
    }
    proof {
        assert(!spec_has_change(ov));
    }
    false
}

fn included_at_op(ops: &Vec<(EditKind, String)>, ctx: usize, i: usize) -> (r: bool)
    requires
        i < ops@.len(),
    ensures
        r == spec_included_op(
            ops@.map_values(|p: (EditKind, String)| (p.0, p.1@)),
            ctx as int,
            i as int,
        ),
{
    let ghost ov = ops@.map_values(|p: (EditKind, String)| (p.0, p.1@));
    let lo: usize = if i >= ctx {
        i - ctx
    } else {
        0
    };
    let mut j: usize = lo;
    loop
        invariant
            lo <= j,
            j <= ov.len(),
            i < ov.len(),
            ov == ops@.map_values(|p: (EditKind, String)| (p.0, p.1@)),
            lo as int == (if i as int - ctx as int >= 0 {
                i as int - ctx as int
            } else {
                0
            }),
            forall|m: int| lo <= m < j ==> ov[m].0 == EditKind::Keep,
        ensures
            lo <= j <= ov.len(),
            forall|m: int| lo <= m < j ==> ov[m].0 == EditKind::Keep,
            j == ov.len() || (j as int) - (i as int) > ctx as int,
        decreases ov.len() - j,
    {
        if j >= ops.len() {
            break ;
        }
        if j > i && j - i > ctx {
            break ;
        }
        proof {
            assert(ov[j as int].0 == ops@[j as int].0);
        }
        if ops[j].0 != EditKind::Keep {
            proof {
                assert(i as int - ctx as int <= j as int <= i as int + ctx as int);
                assert(spec_included_op(ov, ctx as int, i as int));
            }
            return true;
        }
        j += 1;
    }
    proof {
        assert forall|jj: int|
            0 <= jj < ov.len() && ov[jj].0 != EditKind::Keep implies !(i as int - ctx as int <= jj
            <= i as int + ctx as int) by {
            if i as int - ctx as int <= jj <= i as int + ctx as int {
                assert(lo as int <= jj);
                assert(jj < j as int);
                assert(ov[jj].0 == EditKind::Keep);
            }
        }
        assert(!spec_included_op(ov, ctx as int, i as int));
    }
    false
}

fn run_end_from_op(ops: &Vec<(EditKind, String)>, ctx: usize, i: usize) -> (e: usize)
    requires
        i < ops@.len(),
        spec_included_op(
            ops@.map_values(|p: (EditKind, String)| (p.0, p.1@)),
            ctx as int,
            i as int,
        ),
    ensures
        e as int == spec_run_end_op(
            ops@.map_values(|p: (EditKind, String)| (p.0, p.1@)),
            ctx as int,
            i as int,
        ),
        i < e <= ops@.len(),
{
    let ghost ov = ops@.map_values(|p: (EditKind, String)| (p.0, p.1@));
    let n = ops.len();
    let mut e: usize = i + 1;
    proof {
        assert(spec_run_end_op(ov, ctx as int, i as int) == spec_run_end_op(ov, ctx as int, i + 1));
    }
    loop
        invariant
            i < e <= ov.len(),
            n == ov.len(),
            ov == ops@.map_values(|p: (EditKind, String)| (p.0, p.1@)),
            spec_run_end_op(ov, ctx as int, i as int) == spec_run_end_op(
                ov,
                ctx as int,
                e as int,
            ),
        ensures
            i < e <= ov.len(),
            spec_run_end_op(ov, ctx as int, i as int) == e as int,
        decreases ov.len() - e,
    {
        if e >= n {
            proof {
                assert(spec_run_end_op(ov, ctx as int, e as int) == e as int);
            }
            break ;
        }
        if !included_at_op(ops, ctx, e) {
            proof {
                assert(spec_run_end_op(ov, ctx as int, e as int) == e as int);
            }
            break ;
        }
        proof {
            assert(spec_run_end_op(ov, ctx as int, e as int) == spec_run_end_op(
                ov,
                ctx as int,
                e + 1,
            ));
        }
        e += 1;
    }
    e
}

/// How many base and target lines the steps `i..e` consume.
fn count_spans(ops: &Vec<(EditKind, String)>, i: usize, e: usize) -> (r: (usize, usize))
    requires
        i <= e <= ops@.len(),
    ensures
        r.0 as int == spec_old_count(
            ops@.map_values(|p: (EditKind, String)| (p.0, p.1@)),
            i as int,
            e as int,
        ),
        r.1 as int == spec_new_count(
            ops@.map_values(|p: (EditKind, String)| (p.0, p.1@)),
            i as int,
            e as int,
        ),
        r.0 <= e - i,
        r.1 <= e - i,
{
    let ghost ov = ops@.map_values(|p: (EditKind, String)| (p.0, p.1@));
    let mut oc: usize = 0;
    let mut nc: usize = 0;
    let mut j: usize = i;
    while j < e
        invariant
            i <= j <= e <= ov.len(),
            ov == ops@.map_values(|p: (EditKind, String)| (p.0, p.1@)),
            oc <= j - i,
            nc <= j - i,
            spec_old_count(ov, i as int, e as int) == oc + spec_old_count(ov, j as int, e as int),
            spec_new_count(ov, i as int, e as int) == nc + spec_new_count(ov, j as int, e as int),
        decreases e - j,
    {
        proof {
            assert(ov[j as int].0 == ops@[j as int].0);
            assert(spec_old_count(ov, j as int, e as int) == spec_old_step(ov[j as int].0)
                + spec_old_count(ov, j + 1, e as int));
            assert(spec_new_count(ov, j as int, e as int) == spec_new_step(ov[j as int].0)
                + spec_new_count(ov, j + 1, e as int));
        }
        if ops[j].0 != EditKind::Ins {
            oc += 1;
        }
        if ops[j].0 != EditKind::Del {
            nc += 1;
        }
        j += 1;
    }
    (oc, nc)
}

/// Appends the hunks of an alignment.
fn push_hunks_ops(out: &mut Vec<String>, ops: &Vec<(EditKind, String)>, ctx: usize)
    ensures
        final(out)@.map_values(|l: String| l@) == old(out)@.map_values(|l: String| l@)
            + spec_hunks_ops(
            ops@.map_values(|p: (EditKind, String)| (p.0, p.1@)),
            ctx as int,
            0,
            0,
            0,
        ),
{
    let ghost ov = ops@.map_values(|p: (EditKind, String)| (p.0, p.1@));
    let ghost base = out@.map_values(|l: String| l@);
    let mut i: usize = 0;
    let mut old_pos: usize = 0;
    let mut new_pos: usize = 0;
    while i < ops.len()
        invariant
            i <= ov.len(),
            old_pos <= i,
            new_pos <= i,
            ov == ops@.map_values(|p: (EditKind, String)| (p.0, p.1@)),
            out@.map_values(|l: String| l@) + spec_hunks_ops(
                ov,
                ctx as int,
                i as int,
                old_pos as int,
                new_pos as int,
            ) == base + spec_hunks_ops(ov, ctx as int, 0, 0, 0),
        decreases ov.len() - i,
    {
        if !included_at_op(ops, ctx, i) {
            proof {
                assert(ov[i as int].0 == ops@[i as int].0);
                assert(spec_hunks_ops(ov, ctx as int, i as int, old_pos as int, new_pos as int)
                    == spec_hunks_ops(
                    ov,
                    ctx as int,
                    i + 1,
                    old_pos + spec_old_step(ov[i as int].0),
                    new_pos + spec_new_step(ov[i as int].0),
                ));
            }
            if ops[i].0 != EditKind::Ins {
                old_pos += 1;
            }
            if ops[i].0 != EditKind::Del {
                new_pos += 1;
            }
            i += 1;
        } else {
            let e = run_end_from_op(ops, ctx, i);
            let counts = count_spans(ops, i, e);
            let oc = counts.0;
            let nc = counts.1;
            let os = if oc == 0 {
                old_pos
            } else {
                old_pos + 1
            };
            let ns = if nc == 0 {
                new_pos
            } else {
                new_pos + 1
            };
            let ghost before_hunk = out@.map_values(|l: String| l@);
            let header = make_header(os, oc, ns, nc);
            let ghost hv = header@;
            out.push(header);
            proof {
                assert(out@.map_values(|l: String| l@) =~= before_hunk.push(hv));
            }
            let ghost after_header = out@.map_values(|l: String| l@);
            let mut j: usize = i;
            proof {
                assert(ov.subrange(i as int, i as int).map_values(
                    |o: (EditKind, Seq<char>)| spec_op_line(o),
                ) =~= Seq::<Seq<char>>::empty());
            }
            while j < e
                invariant
                    i <= j <= e <= ov.len(),
                    ov == ops@.map_values(|p: (EditKind, String)| (p.0, p.1@)),
                    out@.map_values(|l: String| l@) == after_header + ov.subrange(
                        i as int,
                        j as int,
                    ).map_values(|o: (EditKind, Seq<char>)| spec_op_line(o)),
                decreases e - j,
            {
                proof {
                    assert(ov[j as int].0 == ops@[j as int].0);
                    assert(ov[j as int].1 == ops@[j as int].1@);
                }
                let mark: char = match ops[j].0 {
                    EditKind::Keep => ' ',
                    EditKind::Del => '-',
                    EditKind::Ins => '+',
                };
                let mut m = String::new();
                push_char(&mut m, mark);
                m.append(ops[j].1.as_str());
                proof {
                    assert(m@ =~= spec_op_line(ov[j as int]));
                }
                let ghost prev = out@.map_values(|l: String| l@);
                out.push(m);
                proof {
                    assert(out@.map_values(|l: String| l@) =~= prev.push(
                        spec_op_line(ov[j as int]),
                    ));
                    assert(ov.subrange(i as int, j + 1) =~= ov.subrange(i as int, j as int).push(
                        ov[j as int],
                    ));
                    assert(ov.subrange(i as int, j + 1).map_values(
                        |o: (EditKind, Seq<char>)| spec_op_line(o),
                    ) =~~= ov.subrange(i as int, j as int).map_values(
                        |o: (EditKind, Seq<char>)| spec_op_line(o),
                    ).push(spec_op_line(ov[j as int])));
                }
                j += 1;
            }
            proof {
                assert(spec_hunks_ops(ov, ctx as int, i as int, old_pos as int, new_pos as int)
                    == seq![
                    spec_hunk_header(os as int, oc as int, ns as int, nc as int),
                ] + ov.subrange(i as int, e as int).map_values(
                    |o: (EditKind, Seq<char>)| spec_op_line(o),
                ) + spec_hunks_ops(ov, ctx as int, e as int, old_pos + oc, new_pos + nc));
                assert(out@.map_values(|l: String| l@) + spec_hunks_ops(
                    ov,
                    ctx as int,
                    e as int,
                    old_pos + oc,
                    new_pos + nc,
                ) =~~= before_hunk + spec_hunks_ops(
                    ov,
                    ctx as int,
                    i as int,
                    old_pos as int,
                    new_pos as int,
                ));
            }
            old_pos += oc;
            new_pos += nc;
            i = e;
        }
    }
    proof {
        assert(spec_hunks_ops(ov, ctx as int, ov.len() as int, old_pos as int, new_pos as int)
            =~= Seq::<Seq<char>>::empty());
        assert(out@.map_values(|l: String| l@) =~~= base + spec_hunks_ops(
            ov,
            ctx as int,
            0,
            0,
            0,
        ));
    }
}

/// The hunk header naming the old and new line ranges.
pub open spec fn spec_hunk_header(os: int, oc: int, ns: int, nc: int) -> Seq<char> {
    "@@ -"@ + spec_dec(os) + ","@ + spec_dec(oc) + " +"@ + spec_dec(ns) + ","@ + spec_dec(nc)
        + " @@"@
}

/// The lines of a text block, or none when the content is absent.
pub open spec fn spec_content_lines(c: Option<Seq<char>>) -> Seq<Seq<char>> {
    match c {
        Some(s) => spec_lines(s),
        None => Seq::<Seq<char>>::empty(),
    }
}

/// The label of the old side: the path under `a/`, or `/dev/null` for an
/// absent base.
pub open spec fn spec_base_label(c: Option<Seq<char>>, path: Seq<char>) -> Seq<char> {
    match c {
        Some(_) => "a/"@ + path,
        None => "/dev/null"@,
    }
}

/// The label of the new side: the path under `b/`, or `/dev/null` for an
/// absent target.
pub open spec fn spec_target_label(c: Option<Seq<char>>, path: Seq<char>) -> Seq<char> {
    match c {
        Some(_) => "b/"@ + path,
        None => "/dev/null"@,
    }
}

/// The rendered diff, as a list of lines: empty when the alignment
/// changes nothing, else two header lines followed by the hunks of the
/// alignment, so every change carries up to `ctx` lines of context on
/// each side and changes further apart than that split into separate
/// hunks.
pub open spec fn spec_render_lines(
    a: Seq<Seq<char>>,
    b: Seq<Seq<char>>,
    ctx: int,
    base_label: Seq<char>,
    target_label: Seq<char>,
) -> Seq<Seq<char>> {
    let ops = spec_align(a, b);
    if !spec_has_change(ops) {
        Seq::<Seq<char>>::empty()
    } else {
        seq!["--- "@ + base_label, "+++ "@ + target_label] + spec_hunks_ops(ops, ctx, 0, 0, 0)
    }
}

/// The view of an optional content argument.
pub open spec fn opt_view(o: Option<&str>) -> Option<Seq<char>> {
    match o {
        Some(s) => Some(s@),
        None => None,
    }
}

/// The rendered unified diff of two content states, each line terminated
/// by a newline.
pub open spec fn spec_render(
    base: Option<Seq<char>>,
    target: Option<Seq<char>>,
    ctx: int,
    path: Seq<char>,
) -> Seq<char> {
    spec_unlines(
        spec_render_lines(
            spec_content_lines(base),
            spec_content_lines(target),
            ctx,
            spec_base_label(base, path),
            spec_target_label(target, path),
        ),
    )
}

/// Renders the unified diff of two content states of one file without
/// invoking any external tool. An absent state stands for a missing
/// file: against an absent base every line is added, against an absent
/// target every line is removed. Equal states render to nothing.
pub fn render_diff(base: Option<&str>, target: Option<&str>, context: usize, path: &str) -> (r:
    String)
    ensures
        r@ == spec_render(opt_view(base), opt_view(target), context as int, path@),
{
    let a_lines = match base {
        Some(s) => lines_of(s),
        None => Vec::new(),
    };
    let b_lines = match target {
        Some(s) => lines_of(s),
        None => Vec::new(),
    };
    let ghost av = a_lines@.map_values(|l: String| l@);
    let ghost bv = b_lines@.map_values(|l: String| l@);
    proof {
        assert(av == spec_content_lines(opt_view(base)));
        assert(bv == spec_content_lines(opt_view(target)));
    }
    let ops = align_lines(&a_lines, &b_lines);
    let ghost ov = ops@.map_values(|p: (EditKind, String)| (p.0, p.1@));
    if !has_change_ops(&ops) {
        let r = String::new();
        proof {
            assert(spec_unlines(Seq::<Seq<char>>::empty()) == Seq::<char>::empty());
        }
        return r;
    }
    let mut l0 = "--- ".to_owned();
    match base {
        Some(_) => {
            l0.append("a/");
            l0.append(path);
        },
        None => {
            l0.append("/dev/null");
        },
    }
    let mut l1 = "+++ ".to_owned();
    match target {
        Some(_) => {
            l1.append("b/");
            l1.append(path);
        },
        None => {
            l1.append("/dev/null");
        },
    }
    proof {
        assert(l0@ =~= "--- "@ + spec_base_label(opt_view(base), path@));
        assert(l1@ =~= "+++ "@ + spec_target_label(opt_view(target), path@));
    }
    let mut out: Vec<String> = Vec::new();
    out.push(l0);
    out.push(l1);
    proof {
        assert(out@.map_values(|l: String| l@) =~= seq![
            "--- "@ + spec_base_label(opt_view(base), path@),
            "+++ "@ + spec_target_label(opt_view(target), path@),
        ]);
    }
    push_hunks_ops(&mut out, &ops, context);
    proof {
        assert(out@.map_values(|l: String| l@) =~~= spec_render_lines(
            av,
            bv,
            context as int,
            spec_base_label(opt_view(base), path@),
            spec_target_label(opt_view(target), path@),
        ));
    }
    unlines(&out)
}

/// An alignment of a listing with itself keeps every line.
pub proof fn lemma_align_self(a: Seq<Seq<char>>)
    ensures
        spec_align(a, a).len() == a.len(),
        forall|i: int| 0 <= i < a.len() ==> spec_align(a, a)[i] == (EditKind::Keep, a[i]),
    decreases a.len(),
{
    if a.len() == 0 {
    } else {
        lemma_align_self(a.drop_first());
        assert(spec_align(a, a) == seq![(EditKind::Keep, a[0])] + spec_align(
            a.drop_first(),
            a.drop_first(),
        ));
        assert forall|i: int| 0 <= i < a.len() implies spec_align(a, a)[i] == (
            EditKind::Keep,
            a[i],
        ) by {
            if i > 0 {
                assert(spec_align(a, a)[i] == spec_align(a.drop_first(), a.drop_first())[i - 1]);
                assert(a.drop_first()[i - 1] == a[i]);
            }
        }
    }
}

/// Equal content states render to an empty diff.
pub proof fn lemma_equal_contents_render_empty(
    content: Option<Seq<char>>,
    ctx: int,
    path: Seq<char>,
)
    ensures
        spec_render(content, content, ctx, path) == Seq::<char>::empty(),
{
    let a = spec_content_lines(content);
    lemma_align_self(a);
    let ops = spec_align(a, a);
    assert forall|i: int| 0 <= i < ops.len() implies ops[i].0 == EditKind::Keep by {
        assert(ops[i] == (EditKind::Keep, a[i]));
    }
    assert(!spec_has_change(ops));
    assert(spec_unlines(Seq::<Seq<char>>::empty()) == Seq::<char>::empty());
}

/// Every change belongs to a hunk: no changed step is left out of the
/// rendered hunks, whatever the context width.
pub proof fn lemma_every_change_in_a_hunk(ops: Seq<(EditKind, Seq<char>)>, ctx: int, i: int)
    requires
        ctx >= 0,
        0 <= i < ops.len(),
        ops[i].0 != EditKind::Keep,
    ensures
        spec_included_op(ops, ctx, i),
{
    assert(0 <= i < ops.len() && ops[i].0 != EditKind::Keep && i - ctx <= i <= i + ctx);
}

/// The lines an alignment keeps or removes.
pub open spec fn spec_old_lines(ops: Seq<(EditKind, Seq<char>)>) -> Seq<Seq<char>>
    decreases ops.len(),
{
    if ops.len() == 0 {
        Seq::<Seq<char>>::empty()
    } else if ops[0].0 == EditKind::Ins {
        spec_old_lines(ops.drop_first())
    } else {
        seq![ops[0].1] + spec_old_lines(ops.drop_first())
    }
}

/// The lines an alignment keeps or inserts.
pub open spec fn spec_new_lines(ops: Seq<(EditKind, Seq<char>)>) -> Seq<Seq<char>>
    decreases ops.len(),
{
    if ops.len() == 0 {
        Seq::<Seq<char>>::empty()
    } else if ops[0].0 == EditKind::Del {
        spec_new_lines(ops.drop_first())
    } else {
        seq![ops[0].1] + spec_new_lines(ops.drop_first())
    }
}

/// The alignment accounts exactly for the two contents: its kept and
/// removed lines are the base's lines in order, its kept and inserted
/// lines the target's, so putting the added lines in place of the
/// removed ones in the base yields the target, and symmetrically.
pub proof fn lemma_align_accounts_for_contents(a: Seq<Seq<char>>, b: Seq<Seq<char>>)
    ensures
        spec_old_lines(spec_align(a, b)) =~= a,
        spec_new_lines(spec_align(a, b)) =~= b,
    decreases a.len() + b.len(),
{
    if a.len() == 0 && b.len() == 0 {
    } else if a.len() == 0 {
        lemma_align_accounts_for_contents(a, b.drop_first());
        let ops = seq![(EditKind::Ins, b[0])] + spec_align(a, b.drop_first());
        assert(spec_align(a, b) == ops);
        assert(ops[0] == (EditKind::Ins, b[0]));
        assert(ops.drop_first() =~= spec_align(a, b.drop_first()));
        assert(seq![b[0]] + b.drop_first() =~= b);
    } else if b.len() == 0 {
        lemma_align_accounts_for_contents(a.drop_first(), b);
        let ops = seq![(EditKind::Del, a[0])] + spec_align(a.drop_first(), b);
        assert(spec_align(a, b) == ops);
        assert(ops[0] == (EditKind::Del, a[0]));
        assert(ops.drop_first() =~= spec_align(a.drop_first(), b));
        assert(seq![a[0]] + a.drop_first() =~= a);
    } else if a[0] == b[0] {
        lemma_align_accounts_for_contents(a.drop_first(), b.drop_first());
        let ops = seq![(EditKind::Keep, a[0])] + spec_align(a.drop_first(), b.drop_first());
        assert(spec_align(a, b) == ops);
        assert(ops[0] == (EditKind::Keep, a[0]));
        assert(ops.drop_first() =~= spec_align(a.drop_first(), b.drop_first()));
        assert(seq![a[0]] + a.drop_first() =~= a);
        assert(seq![b[0]] + b.drop_first() =~= b);
    } else if !b.contains(a[0]) {
        lemma_align_accounts_for_contents(a.drop_first(), b);
        let ops = seq![(EditKind::Del, a[0])] + spec_align(a.drop_first(), b);
        assert(spec_align(a, b) == ops);
        assert(ops[0] == (EditKind::Del, a[0]));
        assert(ops.drop_first() =~= spec_align(a.drop_first(), b));
        assert(seq![a[0]] + a.drop_first() =~= a);
    } else if !a.contains(b[0]) {
        lemma_align_accounts_for_contents(a, b.drop_first());
        let ops = seq![(EditKind::Ins, b[0])] + spec_align(a, b.drop_first());
        assert(spec_align(a, b) == ops);
        assert(ops[0] == (EditKind::Ins, b[0]));
        assert(ops.drop_first() =~= spec_align(a, b.drop_first()));
        assert(seq![b[0]] + b.drop_first() =~= b);
    } else {
        lemma_align_accounts_for_contents(a.drop_first(), b);
        let ops = seq![(EditKind::Del, a[0])] + spec_align(a.drop_first(), b);
        assert(spec_align(a, b) == ops);
        assert(ops[0] == (EditKind::Del, a[0]));
        assert(ops.drop_first() =~= spec_align(a.drop_first(), b));
        assert(seq![a[0]] + a.drop_first() =~= a);
    }
}

/// Aligning an absent base against a target inserts every target line.
pub proof fn lemma_align_absent_base(b: Seq<Seq<char>>)
    ensures
        spec_align(Seq::<Seq<char>>::empty(), b) =~= b.map_values(
            |l: Seq<char>| (EditKind::Ins, l),
        ),
    decreases b.len(),
{
    if b.len() == 0 {
    } else {
        lemma_align_absent_base(b.drop_first());
        assert(spec_align(Seq::<Seq<char>>::empty(), b) == seq![(EditKind::Ins, b[0])]
            + spec_align(Seq::<Seq<char>>::empty(), b.drop_first()));
        assert(seq![(EditKind::Ins, b[0])] + b.drop_first().map_values(
            |l: Seq<char>| (EditKind::Ins, l),
        ) =~= b.map_values(|l: Seq<char>| (EditKind::Ins, l)));
    }
}

/// Aligning a base against an absent target removes every base line.
pub proof fn lemma_align_absent_target(a: Seq<Seq<char>>)
    ensures
        spec_align(a, Seq::<Seq<char>>::empty()) =~= a.map_values(
            |l: Seq<char>| (EditKind::Del, l),
        ),
    decreases a.len(),
{
    if a.len() == 0 {
    } else {
        lemma_align_absent_target(a.drop_first());
        assert(spec_align(a, Seq::<Seq<char>>::empty()) == seq![(EditKind::Del, a[0])]
            + spec_align(a.drop_first(), Seq::<Seq<char>>::empty()));
        assert(seq![(EditKind::Del, a[0])] + a.drop_first().map_values(
            |l: Seq<char>| (EditKind::Del, l),
        ) =~= a.map_values(|l: Seq<char>| (EditKind::Del, l)));
    }
}

/// A run of steps that are all changes reaches to the end of the
/// alignment.
pub proof fn lemma_run_end_all_changes(ops: Seq<(EditKind, Seq<char>)>, ctx: int, i: int)
    requires
        ctx >= 0,
        0 <= i <= ops.len(),
        forall|j: int| 0 <= j < ops.len() ==> ops[j].0 != EditKind::Keep,
    ensures
        spec_run_end_op(ops, ctx, i) == ops.len(),
    decreases ops.len() - i,
{
    if i < ops.len() {
        assert(spec_included_op(ops, ctx, i)) by {
            assert(0 <= i < ops.len() && ops[i].0 != EditKind::Keep && i - ctx <= i <= i + ctx);
        }
        lemma_run_end_all_changes(ops, ctx, i + 1);
    }
}

/// Steps that all insert consume no base line and one target line each.
pub proof fn lemma_counts_all_ins(ops: Seq<(EditKind, Seq<char>)>, i: int, e: int)
    requires
        0 <= i <= e <= ops.len(),
        forall|j: int| 0 <= j < ops.len() ==> ops[j].0 == EditKind::Ins,
    ensures
        spec_old_count(ops, i, e) == 0,
        spec_new_count(ops, i, e) == e - i,
    decreases e - i,
{
    if i < e {
        lemma_counts_all_ins(ops, i + 1, e);
    }
}

/// Steps that all remove consume one base line each and no target line.
pub proof fn lemma_counts_all_del(ops: Seq<(EditKind, Seq<char>)>, i: int, e: int)
    requires
        0 <= i <= e <= ops.len(),
        forall|j: int| 0 <= j < ops.len() ==> ops[j].0 == EditKind::Del,
    ensures
        spec_old_count(ops, i, e) == e - i,
        spec_new_count(ops, i, e) == 0,
    decreases e - i,
{
    if i < e {
        lemma_counts_all_del(ops, i + 1, e);
    }
}

/// Against an absent base, a diff shows every line of the target as
/// added: besides its three header lines it holds exactly the target's
/// lines, each marked `+`, and no removed or context line.
pub proof fn lemma_absent_base_all_added(target: Seq<char>, ctx: int, path: Seq<char>)
    requires
        ctx >= 0,
        spec_lines(target).len() > 0,
    ensures
        spec_render(None, Some(target), ctx, path) == spec_unlines(
            seq![
                "--- "@ + "/dev/null"@,
                "+++ "@ + ("b/"@ + path),
                spec_hunk_header(0, 0, 1, spec_lines(target).len() as int),
            ] + spec_marked('+', spec_lines(target)),
        ),
{
    let b = spec_lines(target);
    let a = Seq::<Seq<char>>::empty();
    lemma_align_absent_base(b);
    let ops = spec_align(a, b);
    assert(ops == b.map_values(|l: Seq<char>| (EditKind::Ins, l)));
    assert forall|j: int| 0 <= j < ops.len() implies ops[j].0 == EditKind::Ins by {
        assert(ops[j] == (EditKind::Ins, b[j]));
    }
    assert(ops.len() == b.len());
    assert(ops[0].0 != EditKind::Keep);
    assert(spec_has_change(ops));
    lemma_run_end_all_changes(ops, ctx, 0);
    lemma_counts_all_ins(ops, 0, ops.len() as int);
    assert(spec_included_op(ops, ctx, 0)) by {
        assert(0 <= 0 < ops.len() && ops[0].0 != EditKind::Keep && 0 - ctx <= 0 <= 0 + ctx);
    }
    assert(ops.subrange(0, ops.len() as int) =~= ops);
    assert(ops.subrange(0, ops.len() as int).map_values(
        |o: (EditKind, Seq<char>)| spec_op_line(o),
    ) =~~= spec_marked('+', b));
    assert(spec_hunks_ops(ops, ctx, ops.len() as int, 0, b.len() as int)
        =~= Seq::<Seq<char>>::empty());
    assert(spec_hunks_ops(ops, ctx, 0, 0, 0) =~~= seq![
        spec_hunk_header(0, 0, 1, b.len() as int),
    ] + spec_marked('+', b));
    assert(spec_render_lines(a, b, ctx, "/dev/null"@, "b/"@ + path) =~~= seq![
        "--- "@ + "/dev/null"@,
        "+++ "@ + ("b/"@ + path),
        spec_hunk_header(0, 0, 1, b.len() as int),
    ] + spec_marked('+', b));
}

/// Against an absent target, a diff shows every line of the base as
/// removed: besides its three header lines it holds exactly the base's
/// lines, each marked `-`, and no added or context line.
pub proof fn lemma_absent_target_all_removed(base: Seq<char>, ctx: int, path: Seq<char>)
    requires
        ctx >= 0,
        spec_lines(base).len() > 0,
    ensures
        spec_render(Some(base), None, ctx, path) == spec_unlines(
            seq![
                "--- "@ + ("a/"@ + path),
                "+++ "@ + "/dev/null"@,
                spec_hunk_header(1, spec_lines(base).len() as int, 0, 0),
            ] + spec_marked('-', spec_lines(base)),
        ),
{
    let a = spec_lines(base);
    let b = Seq::<Seq<char>>::empty();
    lemma_align_absent_target(a);
    let ops = spec_align(a, b);
    assert(ops == a.map_values(|l: Seq<char>| (EditKind::Del, l)));
    assert forall|j: int| 0 <= j < ops.len() implies ops[j].0 == EditKind::Del by {
        assert(ops[j] == (EditKind::Del, a[j]));
    }
    assert(ops.len() == a.len());
    assert(ops[0].0 != EditKind::Keep);
    assert(spec_has_change(ops));
    lemma_run_end_all_changes(ops, ctx, 0);
    lemma_counts_all_del(ops, 0, ops.len() as int);
    assert(spec_included_op(ops, ctx, 0)) by {
        assert(0 <= 0 < ops.len() && ops[0].0 != EditKind::Keep && 0 - ctx <= 0 <= 0 + ctx);
    }
    assert(ops.subrange(0, ops.len() as int) =~= ops);
    assert(ops.subrange(0, ops.len() as int).map_values(
        |o: (EditKind, Seq<char>)| spec_op_line(o),
    ) =~~= spec_marked('-', a));
    assert(spec_hunks_ops(ops, ctx, ops.len() as int, a.len() as int, 0)
        =~= Seq::<Seq<char>>::empty());
    assert(spec_hunks_ops(ops, ctx, 0, 0, 0) =~~= seq![
        spec_hunk_header(1, a.len() as int, 0, 0),
    ] + spec_marked('-', a));
    assert(spec_render_lines(a, b, ctx, "a/"@ + path, "/dev/null"@) =~~= seq![
        "--- "@ + ("a/"@ + path),
        "+++ "@ + "/dev/null"@,
        spec_hunk_header(1, a.len() as int, 0, 0),
    ] + spec_marked('-', a));
}

} // verus!
