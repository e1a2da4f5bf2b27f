//! String and bytes literals: an optional prefix, then a body in single or
//! triple quotes.  Escape sequences are kept as they are written.

use vstd::prelude::*;
use crate::newline::{newline_len, scan_newline};

verus! {

/// True for the two quote characters.
pub open spec fn is_quote(c: char) -> bool {
    c == '\'' || c == '"'
}

/// True for a letter that alone is a string prefix: `r`, `u`, `b` or `f`,
/// in either case.
pub open spec fn is_prefix_letter(c: char) -> bool {
    c == 'r' || c == 'R' || c == 'u' || c == 'U' || c == 'b' || c == 'B' || c == 'f' || c == 'F'
}

/// True for two letters that together are a string prefix: `r` with `b` or
/// with `f`, in either order and either case.
pub open spec fn is_prefix_pair(a: char, b: char) -> bool {
    let raw_a = a == 'r' || a == 'R';
    let raw_b = b == 'r' || b == 'R';
    let other_a = a == 'b' || a == 'B' || a == 'f' || a == 'F';
    let other_b = b == 'b' || b == 'B' || b == 'f' || b == 'F';
    (raw_a && other_b) || (other_a && raw_b)
}

/// The length of the prefix of the string literal that starts at index
/// `i`, or `None` where no string literal starts: a literal starts with a
/// quote, or with a prefix of one or two letters that a quote follows.
pub open spec fn string_prefix_len(s: Seq<char>, i: int) -> Option<int> {
    if 0 <= i < s.len() && is_quote(s[i]) {
        Some(0)
    } else if 0 <= i && i + 1 < s.len() && is_prefix_letter(s[i]) && is_quote(s[i + 1]) {
        Some(1)
    } else if 0 <= i && i + 2 < s.len() && is_prefix_pair(s[i], s[i + 1]) && is_quote(s[i + 2]) {
        Some(2)
    } else {
        None
    }
}

/// Whether a string literal starts at index `i`.
pub open spec fn starts_string(s: Seq<char>, i: int) -> bool {
    string_prefix_len(s, i) is Some
}

/// Whether the quote at index `q` opens a triple-quoted body: the same
/// quote stands three times.
pub open spec fn opens_triple(s: Seq<char>, q: int) -> bool {
    0 <= q && q + 2 < s.len() && s[q + 1] == s[q] && s[q + 2] == s[q]
}

/// The index after the quote that closes a single-quoted body which goes on
/// at index `i`, or `None` if the text or the line ends first.  A backslash
/// and the character after it are passed over together.
pub open spec fn single_body_end(s: Seq<char>, i: int, quote: char) -> Option<int>
    decreases s.len() - i,
{
    if !(0 <= i < s.len()) {
        None
    } else if s[i] == '\\' {
        if i + 1 < s.len() {
            single_body_end(s, i + 2, quote)
        } else {
            None
        }
    } else if s[i] == quote {
        Some(i + 1)
    } else if newline_len(s, i) > 0 {
        None
    } else {
        single_body_end(s, i + 1, quote)
    }
}

/// The index after the three quotes that close a triple-quoted body which
/// goes on at index `i`, or `None` if the text ends first.  A backslash and
/// the character after it are passed over together; line terminators are
/// part of the body.
pub open spec fn triple_body_end(s: Seq<char>, i: int, quote: char) -> Option<int>
    decreases s.len() - i,
{
    if !(0 <= i < s.len()) {
        None
    } else if s[i] == '\\' {
        if i + 1 < s.len() {
            triple_body_end(s, i + 2, quote)
        } else {
            None
        }
    } else if s[i] == quote && i + 2 < s.len() && s[i + 1] == quote && s[i + 2] == quote {
        Some(i + 3)
    } else {
        triple_body_end(s, i + 1, quote)
    }
}

/// The index at which the string literal that starts at index `i` ends, or
/// `None` if it is not closed (or if no literal starts at `i`).
pub open spec fn string_end(s: Seq<char>, i: int) -> Option<int> {
    match string_prefix_len(s, i) {
        None => None,
        Some(n) => {
            let q = i + n;
            if opens_triple(s, q) {
                triple_body_end(s, q + 3, s[q])
            } else {
                single_body_end(s, q + 1, s[q])
            }
        },
    }
}

/// A closed single-quoted body ends inside the text, after where it began.
pub proof fn lemma_single_body_end(s: Seq<char>, i: int, quote: char)
    requires
        0 <= i,
    ensures
        single_body_end(s, i, quote) matches Some(e) ==> i < e <= s.len(),
    decreases s.len() - i,
{
    if i < s.len() {
        if s[i] == '\\' {
            if i + 1 < s.len() {
                lemma_single_body_end(s, i + 2, quote);
            }
        } else if s[i] != quote && newline_len(s, i) == 0 {
            lemma_single_body_end(s, i + 1, quote);
        }
    }
}

/// A closed triple-quoted body ends inside the text, after where it began.
pub proof fn lemma_triple_body_end(s: Seq<char>, i: int, quote: char)
    requires
        0 <= i,
    ensures
        triple_body_end(s, i, quote) matches Some(e) ==> i < e <= s.len(),
    decreases s.len() - i,
{
    if i < s.len() {
        if s[i] == '\\' {
            if i + 1 < s.len() {
                lemma_triple_body_end(s, i + 2, quote);
            }
        } else if !(s[i] == quote && i + 2 < s.len() && s[i + 1] == quote && s[i + 2] == quote) {
            lemma_triple_body_end(s, i + 1, quote);
        }
    }
}

/// A closed string literal is not empty and ends inside the text.
pub proof fn lemma_string_end(s: Seq<char>, i: int)
    requires
        0 <= i,
    ensures
        string_end(s, i) matches Some(e) ==> i + 2 <= e <= s.len(),
{
    if let Some(n) = string_prefix_len(s, i) {
        let q = i + n;
        if opens_triple(s, q) {
            lemma_triple_body_end(s, q + 3, s[q]);
        } else {
            lemma_single_body_end(s, q + 1, s[q]);
        }
    }
}

/// Whether `c` is a quote character.
pub fn is_quote_char(c: char) -> (r: bool)
    ensures
        r == is_quote(c),
{
    c == '\'' || c == '"'
}

/// The length of the prefix of the string literal that starts at `from`,
/// or `None` where no string literal starts.
pub fn scan_string_prefix(src: &Vec<char>, from: usize) -> (r: Option<usize>)
    requires
        from <= src.len(),
    ensures
        match r {
            Some(n) => string_prefix_len(src@, from as int) == Some(n as int) && from + n
                < src.len(),
            None => string_prefix_len(src@, from as int) is None,
        },
{
    let left = src.len() - from;
    if left >= 1 && is_quote_char(src[from]) {
        return Some(0);
    }
    if left >= 2 && is_quote_char(src[from + 1]) {
        let a = src[from];
        if a == 'r' || a == 'R' || a == 'u' || a == 'U' || a == 'b' || a == 'B' || a == 'f' || a
            == 'F' {
            return Some(1);
        }
    }
    if left >= 3 && is_quote_char(src[from + 2]) {
        let a = src[from];
        let b = src[from + 1];
        let raw_a = a == 'r' || a == 'R';
        let raw_b = b == 'r' || b == 'R';
        let other_a = a == 'b' || a == 'B' || a == 'f' || a == 'F';
        let other_b = b == 'b' || b == 'B' || b == 'f' || b == 'F';
        if (raw_a && other_b) || (other_a && raw_b) {
            return Some(2);
        }
    }
    None
}

/// The index after the closing quote of the single-quoted body that goes
/// on at `from`, or `None` if it is not closed on its line.
pub fn scan_single_body(src: &Vec<char>, from: usize, quote: char) -> (r: Option<usize>)
    requires
        from <= src.len(),
    ensures
        match r {
            Some(e) => single_body_end(src@, from as int, quote) == Some(e as int) && from < e
                <= src.len(),
            None => single_body_end(src@, from as int, quote) is None,
        },
{
    proof {
        lemma_single_body_end(src@, from as int, quote);
    }
    let mut i = from;
    while i < src.len()
        invariant
            from <= i <= src.len(),
            single_body_end(src@, i as int, quote) == single_body_end(src@, from as int, quote),
        decreases src.len() - i,
    {
        let c = src[i];
        if c == '\\' {
            if src.len() - i >= 2 {
                i += 2;
            } else {
                return None;
            }
        } else if c == quote {
            return Some(i + 1);
        } else if scan_newline(src, i) > 0 {
            return None;
        } else {
            i += 1;
        }
    }
    None
}

/// The index after the closing quotes of the triple-quoted body that goes
/// on at `from`, or `None` if it is not closed.
pub fn scan_triple_body(src: &Vec<char>, from: usize, quote: char) -> (r: Option<usize>)
    requires
        from <= src.len(),
    ensures
        match r {
            Some(e) => triple_body_end(src@, from as int, quote) == Some(e as int) && from < e
                <= src.len(),
            None => triple_body_end(src@, from as int, quote) is None,
        },
{
    proof {
        lemma_triple_body_end(src@, from as int, quote);
    }
    let mut i = from;
    while i < src.len()
        invariant
            from <= i <= src.len(),
            triple_body_end(src@, i as int, quote) == triple_body_end(src@, from as int, quote),
        decreases src.len() - i,
    {
        let c = src[i];
        if c == '\\' {
            if src.len() - i >= 2 {
                i += 2;
            } else {
                return None;
            }
        } else if c == quote && src.len() - i >= 3 && src[i + 1] == quote && src[i + 2] == quote {
            return Some(i + 3);
        } else {
            i += 1;
        }
    }
    None
}

/// The index at which the string literal that starts at `from` ends, or
/// `None` if no literal starts there or the literal is not closed.
pub fn scan_string(src: &Vec<char>, from: usize) -> (r: Option<usize>)
    requires
        from <= src.len(),
    ensures
        match r {
            Some(e) => string_end(src@, from as int) == Some(e as int) && from + 2 <= e
                <= src.len(),
            None => string_end(src@, from as int) is None,
        },
{
    proof {
        lemma_string_end(src@, from as int);
    }
    match scan_string_prefix(src, from) {
        None => None,
        Some(n) => {
            let q = from + n;
            let quote = src[q];
            if src.len() - q >= 3 && src[q + 1] == quote && src[q + 2] == quote {
                scan_triple_body(src, q + 3, quote)
            } else {
                scan_single_body(src, q + 1, quote)
            }
        },
    }
}

} // verus!
