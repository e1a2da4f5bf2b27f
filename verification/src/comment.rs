//! Comments: from `#` to the end of the line.

use vstd::prelude::*;
use crate::newline::{newline_len, scan_newline};

verus! {

/// The index at which a comment that starts at index `i` ends: the index of
/// the first line terminator at or after `i`, or the length of `s` if there
/// is none.  The terminator is not part of the comment.
pub open spec fn comment_end(s: Seq<char>, i: int) -> int
    decreases s.len() - i,
{
    if 0 <= i < s.len() && newline_len(s, i) == 0 {
        comment_end(s, i + 1)
    } else {
        i
    }
}

/// A comment ends inside the text, holds no line terminator, and stops at
/// one unless it runs to the end of the text.
pub proof fn lemma_comment_end(s: Seq<char>, i: int)
    requires
        0 <= i <= s.len(),
    ensures
        i <= comment_end(s, i) <= s.len(),
        forall|k: int| i <= k < comment_end(s, i) ==> newline_len(s, k) == 0,
        comment_end(s, i) < s.len() ==> newline_len(s, comment_end(s, i)) > 0,
    decreases s.len() - i,
{
    if i < s.len() && newline_len(s, i) == 0 {
        lemma_comment_end(s, i + 1);
    }
}

/// The index at which the comment that starts at `from` ends.
pub fn scan_comment(src: &Vec<char>, from: usize) -> (end: usize)
    requires
        from <= src.len(),
    ensures
        end == comment_end(src@, from as int),
        from <= end <= src.len(),
{
    let mut i = from;
    while i < src.len() && scan_newline(src, i) == 0
        invariant
            from <= i <= src.len(),
            comment_end(src@, i as int) == comment_end(src@, from as int),
        decreases src.len() - i,
    {
        i += 1;
    }
    i
}

} // verus!
