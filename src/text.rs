//! Blank text and the shape of a persisted record.
use vstd::prelude::*;

verus! {

/// Unicode `White_Space`, the set that `char::is_whitespace` tests.
pub open spec fn is_white_space(c: char) -> bool {
    let u = c as u32;
    (0x09 <= u <= 0x0d) || u == 0x20 || u == 0x85 || u == 0xa0 || u == 0x1680 || (0x2000 <= u
        <= 0x200a) || u == 0x2028 || u == 0x2029 || u == 0x202f || u == 0x205f || u == 0x3000
}

/// Text made of white space alone, the empty text included.
pub open spec fn is_blank_text(s: Seq<char>) -> bool {
    forall|i: int| 0 <= i < s.len() ==> is_white_space(#[trigger] s[i])
}

/// A persisted record: the stamp on a line of its own, the content, and a
/// final terminator.
pub open spec fn record_text(stamp: Seq<char>, content: Seq<char>) -> Seq<char> {
    stamp.push('\n') + content.push('\n')
}

fn white_space(c: char) -> (r: bool)
    ensures
        r == is_white_space(c),
{
    let u = c as u32;
    (0x09 <= u && u <= 0x0d) || u == 0x20 || u == 0x85 || u == 0xa0 || u == 0x1680 || (0x2000
        <= u && u <= 0x200a) || u == 0x2028 || u == 0x2029 || u == 0x202f || u == 0x205f || u
        == 0x3000
}

/// Whether `text` holds nothing but white space.
pub fn is_blank(text: &str) -> (r: bool)
    ensures
        r == is_blank_text(text@),
{
    for c in it: text.chars()
        invariant
            it.seq() == text@,
            forall|j: int| 0 <= j < it.index() ==> is_white_space(#[trigger] text@[j]),
    {
        if !white_space(c) {
            return false;
        }
    }
    true
}

/// The record appended to the output for `content`, under the header line `stamp`.
pub fn persisted_record(stamp: &str, content: &str) -> (r: String)
    ensures
        r@ == record_text(stamp@, content@),
{
    let mut out = stamp.to_owned();
    out.append("\n");
    out.append(content);
    out.append("\n");
    proof {
        reveal_strlit("\n");
        assert(out@ =~= record_text(stamp@, content@));
    }
    out
}

} // verus!
