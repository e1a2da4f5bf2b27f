//! Line terminators and the whitespace between tokens.

use vstd::prelude::*;
use crate::text::{is_whitespace, is_whitespace_char};
use crate::token::TokenType;

verus! {

/// The length of the line terminator that starts at index `i` of `s`: 1 for
/// a line feed, 2 for a carriage return followed by a line feed, and 0
/// where no line terminator starts.  A carriage return alone is none.
pub open spec fn newline_len(s: Seq<char>, i: int) -> int {
    if 0 <= i < s.len() && s[i] == '\n' {
        1
    } else if 0 <= i && i + 1 < s.len() && s[i] == '\r' && s[i + 1] == '\n' {
        2
    } else {
        0
    }
}

/// The kind of a line terminator met at the given bracket depth: inside
/// open brackets it continues the logical line, elsewhere it ends it.
pub open spec fn newline_kind(depth: int) -> TokenType {
    if depth > 0 {
        TokenType::NewlineContinuation
    } else {
        TokenType::NewlineLogical
    }
}

/// The index of the first character at or after `i` that is not a space, a
/// tab or a form feed, or the length of `s` if there is none.
pub open spec fn whitespace_end(s: Seq<char>, i: int) -> int
    decreases s.len() - i,
{
    if 0 <= i < s.len() && is_whitespace_char(s[i]) {
        whitespace_end(s, i + 1)
    } else {
        i
    }
}

/// A run of whitespace ends inside the text, holds whitespace only, and
/// cannot be extended.
pub proof fn lemma_whitespace_end(s: Seq<char>, i: int)
    requires
        0 <= i <= s.len(),
    ensures
        i <= whitespace_end(s, i) <= s.len(),
        forall|k: int| i <= k < whitespace_end(s, i) ==> is_whitespace_char(#[trigger] s[k]),
        whitespace_end(s, i) < s.len() ==> !is_whitespace_char(s[whitespace_end(s, i)]),
        whitespace_end(s, whitespace_end(s, i)) == whitespace_end(s, i),
    decreases s.len() - i,
{
    if i < s.len() && is_whitespace_char(s[i]) {
        lemma_whitespace_end(s, i + 1);
    }
}

/// The length of the line terminator at index `from`, or 0.
pub fn scan_newline(src: &Vec<char>, from: usize) -> (n: usize)
    requires
        from <= src.len(),
    ensures
        n == newline_len(src@, from as int),
        from + n <= src.len(),
{
    if from < src.len() && src[from] == '\n' {
        1
    } else if from < src.len() && src.len() - from >= 2 && src[from] == '\r' && src[from + 1]
        == '\n' {
        2
    } else {
        0
    }
}

/// The index of the first character at or after `from` that is not
/// whitespace.
pub fn skip_whitespace(src: &Vec<char>, from: usize) -> (end: usize)
    requires
        from <= src.len(),
    ensures
        end == whitespace_end(src@, from as int),
        from <= end <= src.len(),
{
    let mut i = from;
    while i < src.len() && is_whitespace(src[i])
        invariant
            from <= i <= src.len(),
            whitespace_end(src@, i as int) == whitespace_end(src@, from as int),
        decreases src.len() - i,
    {
        i += 1;
    }
    i
}

} // verus!
