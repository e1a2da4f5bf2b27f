//! Numeric literals: integers in four radixes, floats and imaginary numbers.

use vstd::prelude::*;
use crate::text::{is_decimal_digit, is_digit, is_radix_digit};

verus! {

/// Where a run of digits that has begun goes on to.  At index `i`, which
/// follows a digit, a digit extends the run, and so does an underscore
/// that a digit follows; anything else ends it.  An underscore is thus
/// accepted only between two digits.
pub open spec fn digits_tail_end(s: Seq<char>, i: int, radix: int) -> int
    decreases s.len() - i,
{
    if 0 <= i < s.len() && is_radix_digit(s[i], radix) {
        digits_tail_end(s, i + 1, radix)
    } else if 0 <= i && i + 1 < s.len() && s[i] == '_' && is_radix_digit(s[i + 1], radix) {
        digits_tail_end(s, i + 2, radix)
    } else {
        i
    }
}

/// The end of the run of digits that starts at index `i`, or `i` where no
/// digit stands.
pub open spec fn digits_end(s: Seq<char>, i: int, radix: int) -> int {
    if 0 <= i < s.len() && is_radix_digit(s[i], radix) {
        digits_tail_end(s, i + 1, radix)
    } else {
        i
    }
}

/// The radix that the letter of a radix prefix selects, or 0 for any other
/// character.
pub open spec fn radix_of(c: char) -> int {
    if c == 'x' || c == 'X' {
        16
    } else if c == 'o' || c == 'O' {
        8
    } else if c == 'b' || c == 'B' {
        2
    } else {
        0
    }
}

/// The radix of the prefixed integer that starts at index `i`: `0x`, `0o`
/// or `0b` in either case, directly followed by a digit of that radix.
/// The result is 0 where no such literal starts.
pub open spec fn prefixed_radix(s: Seq<char>, i: int) -> int {
    if 0 <= i && i + 2 < s.len() && s[i] == '0' && radix_of(s[i + 1]) != 0 && is_radix_digit(
        s[i + 2],
        radix_of(s[i + 1]),
    ) {
        radix_of(s[i + 1])
    } else {
        0
    }
}

/// Whether a numeric literal starts at index `i`: with a digit, or with a
/// point that a digit follows.
pub open spec fn starts_number(s: Seq<char>, i: int) -> bool {
    0 <= i < s.len() && (is_decimal_digit(s[i]) || (s[i] == '.' && i + 1 < s.len()
        && is_decimal_digit(s[i + 1])))
}

/// The end of the fractional part at index `i`: a point and the digits
/// after it, if any.  Without a point the part is empty.
pub open spec fn fraction_end(s: Seq<char>, i: int) -> int {
    if 0 <= i < s.len() && s[i] == '.' {
        digits_end(s, i + 1, 10)
    } else {
        i
    }
}

/// The index of the first digit of an exponent whose letter stands at
/// index `i`: after the letter and an optional sign.
pub open spec fn exponent_digits_start(s: Seq<char>, i: int) -> int {
    if i + 1 < s.len() && (s[i + 1] == '+' || s[i + 1] == '-') {
        i + 2
    } else {
        i + 1
    }
}

/// The end of the exponent at index `i`: `e` or `E`, an optional sign, and
/// at least one digit.  Without all three the exponent is empty.
pub open spec fn exponent_end(s: Seq<char>, i: int) -> int {
    if 0 <= i < s.len() && (s[i] == 'e' || s[i] == 'E') && digits_end(
        s,
        exponent_digits_start(s, i),
        10,
    ) > exponent_digits_start(s, i) {
        digits_end(s, exponent_digits_start(s, i), 10)
    } else {
        i
    }
}

/// The end of the imaginary marker at index `i`: one `j` or `J`, if there.
pub open spec fn imaginary_end(s: Seq<char>, i: int) -> int {
    if 0 <= i < s.len() && (s[i] == 'j' || s[i] == 'J') {
        i + 1
    } else {
        i
    }
}

/// The end of what may follow the integer part of a decimal literal: a
/// fractional part, an exponent and an imaginary marker, each optional.
pub open spec fn decimal_tail_end(s: Seq<char>, i: int) -> int {
    imaginary_end(s, exponent_end(s, fraction_end(s, i)))
}

/// The index at which the numeric literal that starts at index `i` ends,
/// or `i` where none starts.  A prefixed integer is its prefix and digits;
/// any other literal is an optional run of decimal digits and its tail.
pub open spec fn number_end(s: Seq<char>, i: int) -> int {
    if !starts_number(s, i) {
        i
    } else if prefixed_radix(s, i) != 0 {
        digits_end(s, i + 2, prefixed_radix(s, i))
    } else {
        decimal_tail_end(s, digits_end(s, i, 10))
    }
}

/// The tail of a run of digits ends inside the text.
pub proof fn lemma_digits_tail_end(s: Seq<char>, i: int, radix: int)
    requires
        0 <= i <= s.len(),
    ensures
        i <= digits_tail_end(s, i, radix) <= s.len(),
    decreases s.len() - i,
{
    if i < s.len() && is_radix_digit(s[i], radix) {
        lemma_digits_tail_end(s, i + 1, radix);
    } else if i + 1 < s.len() && s[i] == '_' && is_radix_digit(s[i + 1], radix) {
        lemma_digits_tail_end(s, i + 2, radix);
    }
}

/// A run of digits ends inside the text, and is not empty exactly where a
/// digit stands at its start.
pub proof fn lemma_digits_end(s: Seq<char>, i: int, radix: int)
    requires
        0 <= i <= s.len(),
    ensures
        i <= digits_end(s, i, radix) <= s.len(),
        i < digits_end(s, i, radix) <==> (i < s.len() && is_radix_digit(s[i], radix)),
{
    if i < s.len() && is_radix_digit(s[i], radix) {
        lemma_digits_tail_end(s, i + 1, radix);
    }
}

/// The tail of a decimal literal ends inside the text.
pub proof fn lemma_decimal_tail_end(s: Seq<char>, i: int)
    requires
        0 <= i <= s.len(),
    ensures
        i <= fraction_end(s, i) <= exponent_end(s, fraction_end(s, i)) <= decimal_tail_end(s, i)
            <= s.len(),
{
    let a = fraction_end(s, i);
    if i < s.len() && s[i] == '.' {
        lemma_digits_end(s, i + 1, 10);
    }
    let b = exponent_end(s, a);
    if b != a {
        lemma_digits_end(s, exponent_digits_start(s, a), 10);
    }
}

/// A numeric literal is not empty and ends inside the text.
pub proof fn lemma_number_end(s: Seq<char>, i: int)
    requires
        starts_number(s, i),
    ensures
        i < number_end(s, i) <= s.len(),
{
    if prefixed_radix(s, i) != 0 {
        lemma_digits_end(s, i + 2, prefixed_radix(s, i));
    } else {
        lemma_digits_end(s, i, 10);
        lemma_decimal_tail_end(s, digits_end(s, i, 10));
        if !is_decimal_digit(s[i]) {
            lemma_digits_end(s, i + 1, 10);
        }
    }
}

/// The end of the run of digits of the given radix that starts at `from`.
pub fn scan_digits(src: &Vec<char>, from: usize, radix: u8) -> (end: usize)
    requires
        from <= src.len(),
    ensures
        end == digits_end(src@, from as int, radix as int),
        from <= end <= src.len(),
{
    if from >= src.len() || !is_digit(src[from], radix) {
        return from;
    }
    let mut i = from + 1;
    loop
        invariant
            from < i <= src.len(),
            digits_tail_end(src@, i as int, radix as int) == digits_tail_end(
                src@,
                from + 1,
                radix as int,
            ),
        ensures
            from < i <= src.len(),
            i == digits_tail_end(src@, from + 1, radix as int),
        decreases src.len() - i,
    {
        if i < src.len() && is_digit(src[i], radix) {
            i += 1;
        } else if i < src.len() && src.len() - i >= 2 && src[i] == '_' && is_digit(
            src[i + 1],
            radix,
        ) {
            i += 2;
        } else {
            break ;
        }
    }
    i
}

/// The radix that the letter of a radix prefix selects, or 0.
pub fn radix_letter(c: char) -> (radix: u8)
    ensures
        radix == radix_of(c),
{
    if c == 'x' || c == 'X' {
        16
    } else if c == 'o' || c == 'O' {
        8
    } else if c == 'b' || c == 'B' {
        2
    } else {
        0
    }
}

/// Whether a numeric literal starts at `from`.
pub fn at_number(src: &Vec<char>, from: usize) -> (r: bool)
    requires
        from <= src.len(),
    ensures
        r == starts_number(src@, from as int),
{
    if from >= src.len() {
        false
    } else if is_digit(src[from], 10) {
        true
    } else {
        src[from] == '.' && src.len() - from >= 2 && is_digit(src[from + 1], 10)
    }
}

/// The end of the tail of a decimal literal: fractional part, exponent and
/// imaginary marker, as far as they are there.
pub fn scan_decimal_tail(src: &Vec<char>, from: usize) -> (end: usize)
    requires
        from <= src.len(),
    ensures
        end == decimal_tail_end(src@, from as int),
        from <= end <= src.len(),
{
    proof {
        lemma_decimal_tail_end(src@, from as int);
    }
    let mut i = from;
    if i < src.len() && src[i] == '.' {
        i = scan_digits(src, i + 1, 10);
    }
    if i < src.len() && (src[i] == 'e' || src[i] == 'E') {
        let start = if src.len() - i >= 2 && (src[i + 1] == '+' || src[i + 1] == '-') {
            i + 2
        } else {
            i + 1
        };
        if start <= src.len() {
            let end = scan_digits(src, start, 10);
            if end > start {
                i = end;
            }
        }
    }
    if i < src.len() && (src[i] == 'j' || src[i] == 'J') {
        i += 1;
    }
    i
}

/// The index at which the numeric literal that starts at `from` ends, or
/// `from` where none starts.
pub fn scan_number(src: &Vec<char>, from: usize) -> (end: usize)
    requires
        from <= src.len(),
    ensures
        end == number_end(src@, from as int),
        from <= end <= src.len(),
        starts_number(src@, from as int) <==> from < end,
{
    if !at_number(src, from) {
        return from;
    }
    proof {
        lemma_number_end(src@, from as int);
    }
    if src.len() - from >= 3 && src[from] == '0' {
        let radix = radix_letter(src[from + 1]);
        if radix != 0 && is_digit(src[from + 2], radix) {
            return scan_digits(src, from + 2, radix);
        }
    }
    let digits = scan_digits(src, from, 10);
    scan_decimal_tail(src, digits)
}

} // verus!
