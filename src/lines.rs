//! Splitting text into lines and joining lines back into terminated text.
use vstd::prelude::*;

verus! {

/// The pieces of `s` between line terminators, in order. There is always
/// one more piece than there are terminators in `s`.
pub open spec fn split_at_newlines(s: Seq<char>) -> Seq<Seq<char>>
    decreases s.len(),
{
    if s.len() == 0 {
        seq![Seq::empty()]
    } else {
        let front = split_at_newlines(s.drop_last());
        if s.last() == '\n' {
            front.push(Seq::empty())
        } else {
            front.update(front.len() - 1, front.last().push(s.last()))
        }
    }
}

/// The lines of `s`: maximal runs of characters without a terminator.
/// Empty text has no lines, and a final terminator does not open a new line.
pub open spec fn lines_of(s: Seq<char>) -> Seq<Seq<char>> {
    if s.len() == 0 {
        Seq::empty()
    } else if s.last() == '\n' {
        split_at_newlines(s.drop_last())
    } else {
        split_at_newlines(s)
    }
}

/// Each line followed by a terminator, concatenated in order.
pub open spec fn terminated(ls: Seq<Seq<char>>) -> Seq<char>
    decreases ls.len(),
{
    if ls.len() == 0 {
        Seq::empty()
    } else {
        terminated(ls.drop_last()) + ls.last().push('\n')
    }
}

/// The views of a sequence of strings.
pub open spec fn views(v: Seq<String>) -> Seq<Seq<char>> {
    v.map_values(|l: String| l@)
}

pub proof fn lemma_split_nonempty(s: Seq<char>)
    ensures
        split_at_newlines(s).len() >= 1,
    decreases s.len(),
{
    if s.len() > 0 {
        lemma_split_nonempty(s.drop_last());
    }
}

/// Non-empty text has at least one line.
pub proof fn lemma_lines_nonempty(s: Seq<char>)
    requires
        s.len() > 0,
    ensures
        lines_of(s).len() >= 1,
{
    lemma_split_nonempty(s);
    lemma_split_nonempty(s.drop_last());
}

/// Splits `text` into its lines, without terminators.
pub fn split_lines(text: &str) -> (r: Vec<String>)
    ensures
        views(r@) == lines_of(text@),
{
    let n = text.unicode_len();
    let mut out: Vec<String> = Vec::new();
    let mut start: usize = 0;
    let mut i: usize = 0;
    proof {
        assert(text@.take(0) =~= Seq::<char>::empty());
        assert(views(out@).push(text@.subrange(0, 0)) =~= seq![Seq::<char>::empty()]);
    }
    for c in it: text.chars()
        invariant
            it.seq() == text@,
            n == text@.len(),
            i == it.index(),
            start <= i <= n,
            split_at_newlines(text@.take(i as int)) == views(out@).push(
                text@.subrange(start as int, i as int),
            ),
    {
        let ghost prev = text@.take(i as int);
        assert(text@.take(i + 1).drop_last() =~= prev);
        if c == '\n' {
            let piece = text.substring_char(start, i).to_owned();
            let ghost before = out@;
            out.push(piece);
            start = i + 1;
            proof {
                assert(views(out@) =~= views(before).push(piece@));
                assert(text@.subrange(start as int, start as int) =~= Seq::<char>::empty());
            }
        } else {
            assert(text@.subrange(start as int, i + 1) =~= text@.subrange(
                start as int,
                i as int,
            ).push(c));
        }
        i = i + 1;
    }
    assert(text@.take(n as int) =~= text@);
    if n == 0 {
        Vec::new()
    } else if text.get_char(n - 1) == '\n' {
        proof {
            assert(text@.drop_last() =~= text@.take(n - 1));
            assert(split_at_newlines(text@).drop_last() =~= views(out@));
        }
        out
    } else {
        let piece = text.substring_char(start, n).to_owned();
        let ghost before = out@;
        out.push(piece);
        proof {
            assert(views(out@) =~= views(before).push(piece@));
        }
        out
    }
}

} // verus!
