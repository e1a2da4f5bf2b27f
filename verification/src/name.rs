//! Names: maximal runs of identifier characters.

use vstd::prelude::*;
use crate::unicode::{
    identifier_continue,
    identifier_start,
    is_identifier_continue,
    is_identifier_start,
};

verus! {

/// The index of the first character at or after `i` that cannot continue
/// an identifier, or the length of `s` if there is none.
pub open spec fn name_tail_end(s: Seq<char>, i: int) -> int
    decreases s.len() - i,
{
    if 0 <= i < s.len() && identifier_continue(s[i]) {
        name_tail_end(s, i + 1)
    } else {
        i
    }
}

/// Whether a name starts at index `i` of `s`.
pub open spec fn starts_name(s: Seq<char>, i: int) -> bool {
    0 <= i < s.len() && identifier_start(s[i])
}

/// The index at which the name that starts at index `i` ends: `i` itself
/// where no name starts, else the end of the longest run of identifier
/// characters after the first.
pub open spec fn name_end(s: Seq<char>, i: int) -> int {
    if starts_name(s, i) {
        name_tail_end(s, i + 1)
    } else {
        i
    }
}

/// The tail of a name ends inside the text, holds identifier characters
/// only, and cannot be extended.
pub proof fn lemma_name_tail_end(s: Seq<char>, i: int)
    requires
        0 <= i <= s.len(),
    ensures
        i <= name_tail_end(s, i) <= s.len(),
        forall|k: int| i <= k < name_tail_end(s, i) ==> identifier_continue(#[trigger] s[k]),
        name_tail_end(s, i) < s.len() ==> !identifier_continue(s[name_tail_end(s, i)]),
    decreases s.len() - i,
{
    if i < s.len() && identifier_continue(s[i]) {
        lemma_name_tail_end(s, i + 1);
    }
}

/// A name is not empty and ends inside the text.
pub proof fn lemma_name_end(s: Seq<char>, i: int)
    requires
        starts_name(s, i),
    ensures
        i < name_end(s, i) <= s.len(),
{
    lemma_name_tail_end(s, i + 1);
}

/// The index at which the name that starts at `from` ends, or `from` where
/// no name starts.
pub fn scan_name(src: &Vec<char>, from: usize) -> (end: usize)
    requires
        from <= src.len(),
    ensures
        end == name_end(src@, from as int),
        from <= end <= src.len(),
        starts_name(src@, from as int) <==> from < end,
{
    if from >= src.len() || !is_identifier_start(src[from]) {
        return from;
    }
    let mut i = from + 1;
    while i < src.len() && is_identifier_continue(src[i])
        invariant
            from < i <= src.len(),
            name_tail_end(src@, i as int) == name_tail_end(src@, from + 1),
        decreases src.len() - i,
    {
        i += 1;
    }
    i
}

} // verus!
