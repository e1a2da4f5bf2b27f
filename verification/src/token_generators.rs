//! Token generators: each builds the token that stands at the start of a
//! text, once the kind of that token has been determined.

use vstd::prelude::*;
use crate::comment::{comment_end, scan_comment};
use crate::machine::{token_of, Lexeme};
use crate::name::{name_end, scan_name};
use crate::number::{decimal_tail_end, number_end, scan_decimal_tail, scan_number};
use crate::text::{
    chars_of,
    lemma_byte_len_is_encoding_len,
    lemma_byte_len_subrange,
    lemma_byte_offset_ends,
    lemma_byte_offset_monotone,
    string_of,
};
use crate::token::{Token, TokenType};
use crate::unicode::normalize_name;

verus! {

/// The token of the given kind that spans the first `end` characters of
/// `source`.
fn leading_token(source: &str, chars: &Vec<char>, kind: TokenType, end: usize) -> (token: Token)
    requires
        chars@ == source@,
        end <= chars.len(),
    ensures
        token@ == token_of(source@, Lexeme { kind, start: 0, end: end as int }),
{
    let bytes = source.as_bytes().len();
    let text = string_of(chars, 0, end);
    proof {
        lemma_byte_len_is_encoding_len(source@);
        lemma_byte_len_is_encoding_len(text@);
        lemma_byte_len_subrange(chars@, 0, end as int);
        lemma_byte_offset_monotone(chars@, end as int, chars@.len() as int);
        lemma_byte_offset_ends(chars@);
    }
    let len = text.as_str().len();
    let value = match kind {
        TokenType::Name => normalize_name(text.as_str()),
        _ => text,
    };
    Token { token_type: kind, value, start: 0, end: len }
}

/// The comment that `source` starts with: everything up to the first line
/// terminator, or all of `source` where there is none.
pub fn comment(source: &str) -> (token: Token)
    ensures
        token@ == token_of(
            source@,
            Lexeme { kind: TokenType::Comment, start: 0, end: comment_end(source@, 0) },
        ),
{
    let chars = chars_of(source);
    let end = scan_comment(&chars, 0);
    leading_token(source, &chars, TokenType::Comment, end)
}

/// The name that `source` starts with, in normalization form KC.  The
/// token is empty where `source` starts with no name.
pub fn name(source: &str) -> (token: Token)
    ensures
        token@ == token_of(
            source@,
            Lexeme { kind: TokenType::Name, start: 0, end: name_end(source@, 0) },
        ),
{
    let chars = chars_of(source);
    let end = scan_name(&chars, 0);
    leading_token(source, &chars, TokenType::Name, end)
}

/// The numeric literal that `source` starts with.  The token is empty
/// where `source` starts with none.
pub fn number(source: &str) -> (token: Token)
    ensures
        token@ == token_of(
            source@,
            Lexeme { kind: TokenType::Number, start: 0, end: number_end(source@, 0) },
        ),
{
    let chars = chars_of(source);
    let end = scan_number(&chars, 0);
    leading_token(source, &chars, TokenType::Number, end)
}

/// The index at which the fraction that `s` starts with ends: a point, the
/// digits after it, an exponent and an imaginary marker, as far as they
/// are there; 0 where `s` does not start with a point.
pub open spec fn fraction_literal_end(s: Seq<char>) -> int {
    if s.len() > 0 && s[0] == '.' {
        decimal_tail_end(s, 0)
    } else {
        0
    }
}

/// The fraction that `source` starts with: a numeric literal that begins
/// with a point, such as `.50053`.  The token is empty where `source` does
/// not start with a point.
pub fn fraction(source: &str) -> (token: Token)
    ensures
        token@ == token_of(
            source@,
            Lexeme { kind: TokenType::Number, start: 0, end: fraction_literal_end(source@) },
        ),
{
    let chars = chars_of(source);
    let end = if chars.len() > 0 && chars[0] == '.' {
        scan_decimal_tail(&chars, 0)
    } else {
        0
    };
    leading_token(source, &chars, TokenType::Number, end)
}

} // verus!
