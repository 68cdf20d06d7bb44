//! The line-alignment diff: which suffix of a new snapshot is new content.
use vstd::prelude::*;
use crate::lines::{lines_of, split_lines, terminated, views};

verus! {

/// Number of leading lines on which `a` and `b` agree, one by one.
pub open spec fn run_length(a: Seq<Seq<char>>, b: Seq<Seq<char>>) -> nat
    decreases a.len(),
{
    if a.len() == 0 || b.len() == 0 || a[0] != b[0] {
        0
    } else {
        1 + run_length(a.drop_first(), b.drop_first())
    }
}

/// Length of the run that aligns `prev` from line `start` with `cur` from its first line.
pub open spec fn overlap_at(prev: Seq<Seq<char>>, cur: Seq<Seq<char>>, start: int) -> nat {
    run_length(prev.subrange(start, prev.len() as int), cur)
}

/// Longest alignment over the start lines below `n`.
pub open spec fn best_overlap_below(prev: Seq<Seq<char>>, cur: Seq<Seq<char>>, n: int) -> nat
    decreases n,
{
    if n <= 0 {
        0
    } else {
        let rest = best_overlap_below(prev, cur, n - 1);
        let here = overlap_at(prev, cur, n - 1);
        if here > rest {
            here
        } else {
            rest
        }
    }
}

/// The overlap length: the longest alignment over every start line of `prev`.
pub open spec fn best_overlap(prev: Seq<Seq<char>>, cur: Seq<Seq<char>>) -> nat {
    best_overlap_below(prev, cur, prev.len() as int)
}

/// New content of snapshot `cur` given the last processed snapshot `prev`.
pub open spec fn new_content(prev: Seq<char>, cur: Seq<char>) -> Seq<char> {
    if prev.len() == 0 {
        cur
    } else {
        let pl = lines_of(prev);
        let cl = lines_of(cur);
        let k = best_overlap(pl, cl);
        if k == 0 {
            cur
        } else {
            terminated(cl.subrange(k as int, cl.len() as int))
        }
    }
}

proof fn lemma_run_step(a: Seq<Seq<char>>, b: Seq<Seq<char>>, i: int)
    requires
        0 <= i < a.len(),
        i < b.len(),
        a[i] == b[i],
    ensures
        run_length(a.subrange(i, a.len() as int), b.subrange(i, b.len() as int)) == 1
            + run_length(a.subrange(i + 1, a.len() as int), b.subrange(i + 1, b.len() as int)),
{
    let x = a.subrange(i, a.len() as int);
    let y = b.subrange(i, b.len() as int);
    assert(x.drop_first() =~= a.subrange(i + 1, a.len() as int));
    assert(y.drop_first() =~= b.subrange(i + 1, b.len() as int));
}

proof fn lemma_run_bounded(a: Seq<Seq<char>>, b: Seq<Seq<char>>)
    ensures
        run_length(a, b) <= a.len(),
        run_length(a, b) <= b.len(),
    decreases a.len(),
{
    if a.len() > 0 && b.len() > 0 && a[0] == b[0] {
        lemma_run_bounded(a.drop_first(), b.drop_first());
    }
}

proof fn lemma_run_prefix(a: Seq<Seq<char>>, b: Seq<Seq<char>>)
    requires
        a.len() <= b.len(),
        forall|i: int| 0 <= i < a.len() ==> a[i] == b[i],
    ensures
        run_length(a, b) == a.len(),
    decreases a.len(),
{
    if a.len() > 0 {
        assert(a[0] == b[0]);
        let (x, y) = (a.drop_first(), b.drop_first());
        assert forall|i: int| 0 <= i < x.len() implies x[i] == y[i] by {
            assert(a[i + 1] == b[i + 1]);
        }
        lemma_run_prefix(x, y);
    }
}

proof fn lemma_best_bounds(prev: Seq<Seq<char>>, cur: Seq<Seq<char>>, n: int)
    requires
        n <= prev.len(),
    ensures
        best_overlap_below(prev, cur, n) <= cur.len(),
        best_overlap_below(prev, cur, n) <= prev.len(),
        forall|s: int| 0 <= s < n ==> overlap_at(prev, cur, s) <= best_overlap_below(prev, cur, n),
    decreases n,
{
    if n > 0 {
        lemma_best_bounds(prev, cur, n - 1);
        lemma_run_bounded(prev.subrange(n - 1, prev.len() as int), cur);
    }
}

proof fn lemma_best_zero(prev: Seq<Seq<char>>, cur: Seq<Seq<char>>, n: int)
    requires
        n <= prev.len(),
        forall|i: int, j: int| 0 <= i < cur.len() && 0 <= j < prev.len() ==> cur[i] != prev[j],
    ensures
        best_overlap_below(prev, cur, n) == 0,
    decreases n,
{
    if n > 0 {
        lemma_best_zero(prev, cur, n - 1);
        let a = prev.subrange(n - 1, prev.len() as int);
        if cur.len() > 0 {
            assert(a[0] != cur[0]);
        }
    }
}

/// With no previous snapshot, all of the current snapshot is new.
pub proof fn lemma_first_observation(current: Seq<char>)
    requires
        current.len() > 0,
    ensures
        new_content(Seq::empty(), current) == current,
{
}

/// Diffing a non-empty snapshot against itself yields no new content.
pub proof fn lemma_converged(current: Seq<char>)
    requires
        current.len() > 0,
    ensures
        new_content(current, current) == Seq::<char>::empty(),
{
    let cl = lines_of(current);
    crate::lines::lemma_lines_nonempty(current);
    lemma_best_bounds(cl, cl, cl.len() as int);
    assert(cl.subrange(0, cl.len() as int) =~= cl);
    lemma_run_prefix(cl, cl);
    assert(overlap_at(cl, cl, 0) == cl.len());
    assert(cl.subrange(cl.len() as int, cl.len() as int) =~= Seq::<Seq<char>>::empty());
}

/// When the current snapshot is the last processed one with one more line,
/// exactly that line is new, followed by a terminator.
pub proof fn lemma_one_line_appended(current1: Seq<char>, current2: Seq<char>, line: Seq<char>)
    requires
        current1.len() > 0,
        lines_of(current2) == lines_of(current1).push(line),
    ensures
        new_content(current1, current2) == line.push('\n'),
{
    let pl = lines_of(current1);
    let cl = lines_of(current2);
    crate::lines::lemma_lines_nonempty(current1);
    lemma_best_bounds(pl, cl, pl.len() as int);
    assert(pl.subrange(0, pl.len() as int) =~= pl);
    lemma_run_prefix(pl, cl);
    assert(overlap_at(pl, cl, 0) == pl.len());
    let rest = cl.subrange(pl.len() as int, cl.len() as int);
    assert(rest =~= seq![line]);
    assert(rest.drop_last() =~= Seq::<Seq<char>>::empty());
    assert(terminated(rest.drop_last()) == Seq::<char>::empty());
    assert(terminated(rest) == terminated(rest.drop_last()) + rest.last().push('\n'));
    assert(Seq::<char>::empty() + line.push('\n') =~= line.push('\n'));
}

/// When no line of the current snapshot equals any line of the previous one,
/// all of the current snapshot is new.
pub proof fn lemma_reset(previous: Seq<char>, current: Seq<char>)
    requires
        forall|i: int, j: int|
            0 <= i < lines_of(current).len() && 0 <= j < lines_of(previous).len() ==> lines_of(
                current,
            )[i] != lines_of(previous)[j],
    ensures
        new_content(previous, current) == current,
{
    let pl = lines_of(previous);
    lemma_best_zero(pl, lines_of(current), pl.len() as int);
}

/// Counts the lines on which `prev` from `start` and `cur` from its first line agree.
fn overlap_from(prev: &Vec<String>, cur: &Vec<String>, start: usize) -> (r: usize)
    requires
        start <= prev.len(),
    ensures
        r == overlap_at(views(prev@), views(cur@), start as int),
        r <= cur.len(),
        r + start <= prev.len(),
{
    let ghost pv = views(prev@);
    let ghost cv = views(cur@);
    let ghost a = pv.subrange(start as int, pv.len() as int);
    let mut j: usize = 0;
    assert(a.subrange(0, a.len() as int) =~= a);
    assert(cv.subrange(0, cv.len() as int) =~= cv);
    while start + j < prev.len() && j < cur.len() && prev[start + j] == cur[j]
        invariant
            start + j <= prev.len(),
            j <= cur.len(),
            pv == views(prev@),
            cv == views(cur@),
            a == pv.subrange(start as int, pv.len() as int),
            run_length(a, cv) == j + run_length(
                a.subrange(j as int, a.len() as int),
                cv.subrange(j as int, cv.len() as int),
            ),
        decreases cur.len() - j,
    {
        proof {
            assert(a[j as int] == pv[start + j]);
            lemma_run_step(a, cv, j as int);
        }
        j = j + 1;
    }
    proof {
        let x = a.subrange(j as int, a.len() as int);
        let y = cv.subrange(j as int, cv.len() as int);
        if start + j < prev.len() && j < cur.len() {
            assert(x[0] == pv[start + j]);
            assert(y[0] == cv[j as int]);
        }
    }
    j
}

/// The overlap length of `prev` and `cur`: over every start line of `prev`,
/// the longest run of lines that agree with `cur` from its first line.
/// Ties go to the earliest start line.
fn best_overlap_exec(prev: &Vec<String>, cur: &Vec<String>) -> (r: usize)
    ensures
        r == best_overlap(views(prev@), views(cur@)),
        r <= cur.len(),
{
    let mut best: usize = 0;
    let mut s: usize = 0;
    while s < prev.len()
        invariant
            s <= prev.len(),
            best == best_overlap_below(views(prev@), views(cur@), s as int),
            best <= cur.len(),
        decreases prev.len() - s,
    {
        let here = overlap_from(prev, cur, s);
        if here > best {
            best = here;
        }
        s = s + 1;
    }
    best
}

/// Joins `ls[from..]`, each line followed by a terminator.
fn join_terminated(ls: &Vec<String>, from: usize) -> (r: String)
    requires
        from <= ls.len(),
    ensures
        r@ == terminated(views(ls@).subrange(from as int, ls.len() as int)),
{
    let ghost lv = views(ls@);
    let mut out = String::new();
    let mut i: usize = from;
    assert(lv.subrange(from as int, from as int) =~= Seq::<Seq<char>>::empty());
    while i < ls.len()
        invariant
            from <= i <= ls.len(),
            lv == views(ls@),
            out@ == terminated(lv.subrange(from as int, i as int)),
        decreases ls.len() - i,
    {
        out.append(ls[i].as_str());
        out.append("\n");
        proof {
            reveal_strlit("\n");
            let next = lv.subrange(from as int, i + 1);
            assert(next.drop_last() =~= lv.subrange(from as int, i as int));
            assert(next.last() == lv[i as int]);
            assert(out@ =~= terminated(next));
        }
        i = i + 1;
    }
    out
}

/// The content of snapshot `current` that is new since snapshot `previous`.
///
/// With no previous snapshot, all of `current` is new. Otherwise the lines of
/// `current` are aligned with those of `previous` (see `best_overlap`); when
/// no line aligns, all of `current` is new (the source was reset), else the
/// lines after the aligned run are new, each followed by a terminator.
pub fn extract_new_lines(previous: &str, current: &str) -> (r: String)
    ensures
        r@ == new_content(previous@, current@),
{
    if previous.is_empty() {
        return current.to_owned();
    }
    let prev_lines = split_lines(previous);
    let cur_lines = split_lines(current);
    let k = best_overlap_exec(&prev_lines, &cur_lines);
    if k == 0 {
        current.to_owned()
    } else {
        join_terminated(&cur_lines, k)
    }
}

} // verus!
