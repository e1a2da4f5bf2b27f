//! Fixed tokens: operators, punctuation and the continuation marker, found
//! by trying an ordered table from the top.

use vstd::prelude::*;
use vstd::std_specs::iter::IteratorSpec;
use crate::token::TokenType;

verus! {

/// The number of entries in the table of fixed tokens.
pub const SIMPLE_TOKEN_COUNT: usize = 48;

/// The text of entry `k` of the table of fixed tokens.
pub open spec fn simple_text(k: int) -> Seq<char> {
    if k == 0 {
        seq!['\\', '\r', '\n']
    } else if k == 1 {
        seq!['\\', '\n']
    } else if k == 2 {
        seq!['>', '>', '=']
    } else if k == 3 {
        seq!['<', '<', '=']
    } else if k == 4 {
        seq!['/', '/', '=']
    } else if k == 5 {
        seq!['*', '*', '=']
    } else if k == 6 {
        seq!['.', '.', '.']
    } else if k == 7 {
        seq!['!', '=']
    } else if k == 8 {
        seq!['&', '=']
    } else if k == 9 {
        seq!['@', '=']
    } else if k == 10 {
        seq!['^', '=']
    } else if k == 11 {
        seq!['%', '=']
    } else if k == 12 {
        seq!['+', '=']
    } else if k == 13 {
        seq!['|', '=']
    } else if k == 14 {
        seq!['=', '=']
    } else if k == 15 {
        seq!['-', '=']
    } else if k == 16 {
        seq!['-', '>']
    } else if k == 17 {
        seq!['>', '>']
    } else if k == 18 {
        seq!['>', '=']
    } else if k == 19 {
        seq!['<', '<']
    } else if k == 20 {
        seq!['<', '=']
    } else if k == 21 {
        seq!['/', '/']
    } else if k == 22 {
        seq!['/', '=']
    } else if k == 23 {
        seq!['*', '*']
    } else if k == 24 {
        seq!['*', '=']
    } else if k == 25 {
        seq![':']
    } else if k == 26 {
        seq![',']
    } else if k == 27 {
        seq![';']
    } else if k == 28 {
        seq!['~']
    } else if k == 29 {
        seq!['&']
    } else if k == 30 {
        seq!['@']
    } else if k == 31 {
        seq!['^']
    } else if k == 32 {
        seq!['%']
    } else if k == 33 {
        seq!['+']
    } else if k == 34 {
        seq!['|']
    } else if k == 35 {
        seq!['=']
    } else if k == 36 {
        seq!['-']
    } else if k == 37 {
        seq!['>']
    } else if k == 38 {
        seq!['<']
    } else if k == 39 {
        seq!['/']
    } else if k == 40 {
        seq!['*']
    } else if k == 41 {
        seq!['.']
    } else if k == 42 {
        seq!['(']
    } else if k == 43 {
        seq!['[']
    } else if k == 44 {
        seq!['{']
    } else if k == 45 {
        seq![')']
    } else if k == 46 {
        seq![']']
    } else {
        seq!['}']
    }
}

/// The kind of entry `k` of the table of fixed tokens.
pub open spec fn simple_kind(k: int) -> TokenType {
    if k == 0 {
        TokenType::NewlineContinuation
    } else if k == 1 {
        TokenType::NewlineContinuation
    } else if k == 2 {
        TokenType::RightShiftEqual
    } else if k == 3 {
        TokenType::LeftShiftEqual
    } else if k == 4 {
        TokenType::DoubleSlashEqual
    } else if k == 5 {
        TokenType::DoubleStarEqual
    } else if k == 6 {
        TokenType::Ellipsis
    } else if k == 7 {
        TokenType::NotEqual
    } else if k == 8 {
        TokenType::AmpersandEqual
    } else if k == 9 {
        TokenType::AtEqual
    } else if k == 10 {
        TokenType::CircumflexEqual
    } else if k == 11 {
        TokenType::PercentEqual
    } else if k == 12 {
        TokenType::PlusEqual
    } else if k == 13 {
        TokenType::VerticalBarEqual
    } else if k == 14 {
        TokenType::DoubleEqual
    } else if k == 15 {
        TokenType::MinusEqual
    } else if k == 16 {
        TokenType::RightArrow
    } else if k == 17 {
        TokenType::RightShift
    } else if k == 18 {
        TokenType::GreaterEqual
    } else if k == 19 {
        TokenType::LeftShift
    } else if k == 20 {
        TokenType::LessEqual
    } else if k == 21 {
        TokenType::DoubleSlash
    } else if k == 22 {
        TokenType::SlashEqual
    } else if k == 23 {
        TokenType::DoubleStar
    } else if k == 24 {
        TokenType::StarEqual
    } else if k == 25 {
        TokenType::Colon
    } else if k == 26 {
        TokenType::Comma
    } else if k == 27 {
        TokenType::Semicolon
    } else if k == 28 {
        TokenType::Tilde
    } else if k == 29 {
        TokenType::Ampersand
    } else if k == 30 {
        TokenType::At
    } else if k == 31 {
        TokenType::Circumflex
    } else if k == 32 {
        TokenType::Percent
    } else if k == 33 {
        TokenType::Plus
    } else if k == 34 {
        TokenType::VerticalBar
    } else if k == 35 {
        TokenType::Equal
    } else if k == 36 {
        TokenType::Minus
    } else if k == 37 {
        TokenType::Greater
    } else if k == 38 {
        TokenType::Less
    } else if k == 39 {
        TokenType::Slash
    } else if k == 40 {
        TokenType::Star
    } else if k == 41 {
        TokenType::Dot
    } else if k == 42 {
        TokenType::LeftParenthesis
    } else if k == 43 {
        TokenType::LeftSquareBracket
    } else if k == 44 {
        TokenType::LeftBrace
    } else if k == 45 {
        TokenType::RightParenthesis
    } else if k == 46 {
        TokenType::RightSquareBracket
    } else {
        TokenType::RightBrace
    }
}

/// Whether the text `t` stands in `s` at index `i`.
pub open spec fn matches_at(s: Seq<char>, i: int, t: Seq<char>) -> bool {
    0 <= i && i + t.len() <= s.len() && s.subrange(i, i + t.len()) == t
}

/// The first entry of the table, from entry `k` on, whose text stands in
/// `s` at index `i`.
pub open spec fn first_simple_from(s: Seq<char>, i: int, k: int) -> Option<int>
    decreases SIMPLE_TOKEN_COUNT - k,
{
    if k < 0 || k >= SIMPLE_TOKEN_COUNT {
        None
    } else if matches_at(s, i, simple_text(k)) {
        Some(k)
    } else {
        first_simple_from(s, i, k + 1)
    }
}

/// The entry of the table that matches at index `i` of `s`: the first one
/// whose text stands there.
pub open spec fn simple_match(s: Seq<char>, i: int) -> Option<int> {
    first_simple_from(s, i, 0)
}

/// The length of the text of entry `k`.
pub open spec fn simple_len(k: int) -> int {
    if k == 1 {
        2
    } else if k < 7 {
        3
    } else if k < 25 {
        2
    } else {
        1
    }
}

/// Every text of the table has the length that its place in the table
/// implies: between one and three characters.
pub proof fn lemma_simple_text_len(k: int)
    requires
        0 <= k < SIMPLE_TOKEN_COUNT,
    ensures
        simple_text(k).len() == simple_len(k),
        1 <= simple_text(k).len() <= 3,
{
}

/// The search finds the first matching entry at or after `k`, if any.
pub proof fn lemma_first_simple_from(s: Seq<char>, i: int, k: int)
    requires
        0 <= k <= SIMPLE_TOKEN_COUNT,
    ensures
        match first_simple_from(s, i, k) {
            Some(m) => k <= m < SIMPLE_TOKEN_COUNT && matches_at(s, i, simple_text(m)) && forall|
                j: int,
            |
                k <= j < m ==> !matches_at(s, i, #[trigger] simple_text(j)),
            None => forall|j: int|
                k <= j < SIMPLE_TOKEN_COUNT ==> !matches_at(s, i, #[trigger] simple_text(j)),
        },
    decreases SIMPLE_TOKEN_COUNT - k,
{
    if k < SIMPLE_TOKEN_COUNT && !matches_at(s, i, simple_text(k)) {
        lemma_first_simple_from(s, i, k + 1);
    }
}

/// Longest match: whenever some entry of the table matches at an index,
/// the entry that the matcher picks matches there too and is at least as
/// long.  So of `*`, `**` and `**=` the longest that stands in the text
/// wins.
pub proof fn lemma_simple_match_is_longest(s: Seq<char>, i: int, j: int)
    requires
        0 <= j < SIMPLE_TOKEN_COUNT,
        matches_at(s, i, simple_text(j)),
    ensures
        simple_match(s, i) matches Some(k) && 0 <= k <= j && matches_at(s, i, simple_text(k))
            && simple_text(k).len() >= simple_text(j).len(),
{
    lemma_first_simple_from(s, i, 0);
    let k = simple_match(s, i)->0;
    lemma_simple_text_len(k);
    lemma_simple_text_len(j);
    if k == 1 && 2 <= j < 7 {
        let a = simple_text(k);
        let b = simple_text(j);
        assert(s.subrange(i, i + a.len())[0] == a[0]);
        assert(s.subrange(i, i + b.len())[0] == b[0]);
    }
}

/// A matching fixed token is not empty and ends inside the text.
pub proof fn lemma_simple_match_bounds(s: Seq<char>, i: int)
    requires
        0 <= i,
    ensures
        simple_match(s, i) matches Some(k) ==> 0 <= k < SIMPLE_TOKEN_COUNT && i < i + simple_text(
            k,
        ).len() <= s.len(),
{
    lemma_first_simple_from(s, i, 0);
    if let Some(k) = simple_match(s, i) {
        lemma_simple_text_len(k);
    }
}

/// Entry `k` of the table of fixed tokens: its text and its kind.
pub fn simple_entry(k: usize) -> (entry: (&'static str, TokenType))
    requires
        k < SIMPLE_TOKEN_COUNT,
    ensures
        entry.0@ == simple_text(k as int),
        entry.1 == simple_kind(k as int),
{
    if k == 0 {
        proof {
            reveal_strlit("\\\r\n");
            assert("\\\r\n"@ =~= simple_text(0));
        }
        ("\\\r\n", TokenType::NewlineContinuation)
    } else if k == 1 {
        proof {
            reveal_strlit("\\\n");
            assert("\\\n"@ =~= simple_text(1));
        }
        ("\\\n", TokenType::NewlineContinuation)
    } else if k == 2 {
        proof {
            reveal_strlit(">>=");
            assert(">>="@ =~= simple_text(2));
        }
        (">>=", TokenType::RightShiftEqual)
    } else if k == 3 {
        proof {
            reveal_strlit("<<=");
            assert("<<="@ =~= simple_text(3));
        }
        ("<<=", TokenType::LeftShiftEqual)
    } else if k == 4 {
        proof {
            reveal_strlit("//=");
            assert("//="@ =~= simple_text(4));
        }
        ("//=", TokenType::DoubleSlashEqual)
    } else if k == 5 {
        proof {
            reveal_strlit("**=");
            assert("**="@ =~= simple_text(5));
        }
        ("**=", TokenType::DoubleStarEqual)
    } else if k == 6 {
        proof {
            reveal_strlit("...");
            assert("..."@ =~= simple_text(6));
        }
        ("...", TokenType::Ellipsis)
    } else if k == 7 {
        proof {
            reveal_strlit("!=");
            assert("!="@ =~= simple_text(7));
        }
        ("!=", TokenType::NotEqual)
    } else if k == 8 {
        proof {
            reveal_strlit("&=");
            assert("&="@ =~= simple_text(8));
        }
        ("&=", TokenType::AmpersandEqual)
    } else if k == 9 {
        proof {
            reveal_strlit("@=");
            assert("@="@ =~= simple_text(9));
        }
        ("@=", TokenType::AtEqual)
    } else if k == 10 {
        proof {
            reveal_strlit("^=");
            assert("^="@ =~= simple_text(10));
        }
        ("^=", TokenType::CircumflexEqual)
    } else if k == 11 {
        proof {
            reveal_strlit("%=");
            assert("%="@ =~= simple_text(11));
        }
        ("%=", TokenType::PercentEqual)
    } else if k == 12 {
        proof {
            reveal_strlit("+=");
            assert("+="@ =~= simple_text(12));
        }
        ("+=", TokenType::PlusEqual)
    } else if k == 13 {
        proof {
            reveal_strlit("|=");
            assert("|="@ =~= simple_text(13));
        }
        ("|=", TokenType::VerticalBarEqual)
    } else if k == 14 {
        proof {
            reveal_strlit("==");
            assert("=="@ =~= simple_text(14));
        }
        ("==", TokenType::DoubleEqual)
    } else if k == 15 {
        proof {
            reveal_strlit("-=");
            assert("-="@ =~= simple_text(15));
        }
        ("-=", TokenType::MinusEqual)
    } else if k == 16 {
        proof {
            reveal_strlit("->");
            assert("->"@ =~= simple_text(16));
        }
        ("->", TokenType::RightArrow)
    } else if k == 17 {
        proof {
            reveal_strlit(">>");
            assert(">>"@ =~= simple_text(17));
        }
        (">>", TokenType::RightShift)
    } else if k == 18 {
        proof {
            reveal_strlit(">=");
            assert(">="@ =~= simple_text(18));
        }
        (">=", TokenType::GreaterEqual)
    } else if k == 19 {
        proof {
            reveal_strlit("<<");
            assert("<<"@ =~= simple_text(19));
        }
        ("<<", TokenType::LeftShift)
    } else if k == 20 {
        proof {
            reveal_strlit("<=");
            assert("<="@ =~= simple_text(20));
        }
        ("<=", TokenType::LessEqual)
    } else if k == 21 {
        proof {
            reveal_strlit("//");
            assert("//"@ =~= simple_text(21));
        }
        ("//", TokenType::DoubleSlash)
    } else if k == 22 {
        proof {
            reveal_strlit("/=");
            assert("/="@ =~= simple_text(22));
        }
        ("/=", TokenType::SlashEqual)
    } else if k == 23 {
        proof {
            reveal_strlit("**");
            assert("**"@ =~= simple_text(23));
        }
        ("**", TokenType::DoubleStar)
    } else if k == 24 {
        proof {
            reveal_strlit("*=");
            assert("*="@ =~= simple_text(24));
        }
        ("*=", TokenType::StarEqual)
    } else if k == 25 {
        proof {
            reveal_strlit(":");
            assert(":"@ =~= simple_text(25));
        }
        (":", TokenType::Colon)
    } else if k == 26 {
        proof {
            reveal_strlit(",");
            assert(","@ =~= simple_text(26));
        }
        (",", TokenType::Comma)
    } else if k == 27 {
        proof {
            reveal_strlit(";");
            assert(";"@ =~= simple_text(27));
        }
        (";", TokenType::Semicolon)
    } else if k == 28 {
        proof {
            reveal_strlit("~");
            assert("~"@ =~= simple_text(28));
        }
        ("~", TokenType::Tilde)
    } else if k == 29 {
        proof {
            reveal_strlit("&");
            assert("&"@ =~= simple_text(29));
        }
        ("&", TokenType::Ampersand)
    } else if k == 30 {
        proof {
            reveal_strlit("@");
            assert("@"@ =~= simple_text(30));
        }
        ("@", TokenType::At)
    } else if k == 31 {
        proof {
            reveal_strlit("^");
            assert("^"@ =~= simple_text(31));
        }
        ("^", TokenType::Circumflex)
    } else if k == 32 {
        proof {
            reveal_strlit("%");
            assert("%"@ =~= simple_text(32));
        }
        ("%", TokenType::Percent)
    } else if k == 33 {
        proof {
            reveal_strlit("+");
            assert("+"@ =~= simple_text(33));
        }
        ("+", TokenType::Plus)
    } else if k == 34 {
        proof {
            reveal_strlit("|");
            assert("|"@ =~= simple_text(34));
        }
        ("|", TokenType::VerticalBar)
    } else if k == 35 {
        proof {
            reveal_strlit("=");
            assert("="@ =~= simple_text(35));
        }
        ("=", TokenType::Equal)
    } else if k == 36 {
        proof {
            reveal_strlit("-");
            assert("-"@ =~= simple_text(36));
        }
        ("-", TokenType::Minus)
    } else if k == 37 {
        proof {
            reveal_strlit(">");
            assert(">"@ =~= simple_text(37));
        }
        (">", TokenType::Greater)
    } else if k == 38 {
        proof {
            reveal_strlit("<");
            assert("<"@ =~= simple_text(38));
        }
        ("<", TokenType::Less)
    } else if k == 39 {
        proof {
            reveal_strlit("/");
            assert("/"@ =~= simple_text(39));
        }
        ("/", TokenType::Slash)
    } else if k == 40 {
        proof {
            reveal_strlit("*");
            assert("*"@ =~= simple_text(40));
        }
        ("*", TokenType::Star)
    } else if k == 41 {
        proof {
            reveal_strlit(".");
            assert("."@ =~= simple_text(41));
        }
        (".", TokenType::Dot)
    } else if k == 42 {
        proof {
            reveal_strlit("(");
            assert("("@ =~= simple_text(42));
        }
        ("(", TokenType::LeftParenthesis)
    } else if k == 43 {
        proof {
            reveal_strlit("[");
            assert("["@ =~= simple_text(43));
        }
        ("[", TokenType::LeftSquareBracket)
    } else if k == 44 {
        proof {
            reveal_strlit("{");
            assert("{"@ =~= simple_text(44));
        }
        ("{", TokenType::LeftBrace)
    } else if k == 45 {
        proof {
            reveal_strlit(")");
            assert(")"@ =~= simple_text(45));
        }
        (")", TokenType::RightParenthesis)
    } else if k == 46 {
        proof {
            reveal_strlit("]");
            assert("]"@ =~= simple_text(46));
        }
        ("]", TokenType::RightSquareBracket)
    } else {
        proof {
            reveal_strlit("}");
            assert("}"@ =~= simple_text(47));
        }
        ("}", TokenType::RightBrace)
    }
}

/// Whether `text` stands in `src` at index `from`.
pub fn text_matches(src: &Vec<char>, from: usize, text: &str) -> (r: bool)
    requires
        from <= src.len(),
    ensures
        r == matches_at(src@, from as int, text@),
{
    let mut it = text.chars();
    let mut i = from;
    let ghost mut seen: Seq<char> = Seq::empty();
    loop
        invariant
            it.obeys_prophetic_iter_laws(),
            it.decrease() is Some,
            seen + it.remaining() == text@,
            from <= i <= src.len(),
            i == from + seen.len(),
            src@.subrange(from as int, i as int) == seen,
        decreases it.decrease()->0,
    {
        match it.next() {
            Some(c) => {
                if i >= src.len() || src[i] != c {
                    proof {
                        let whole = src@.subrange(from as int, from + text@.len());
                        if from + text@.len() <= src.len() {
                            assert(whole[seen.len() as int] == src@[i as int]);
                            assert(text@[seen.len() as int] == c);
                        }
                    }
                    return false;
                }
                proof {
                    seen = seen.push(c);
                    assert(src@.subrange(from as int, i + 1) =~= seen);
                    assert(seen + it.remaining() =~= text@);
                }
                i += 1;
            },
            None => {
                proof {
                    assert(seen =~= text@);
                }
                return true;
            },
        }
    }
}

/// The entry of the table that matches at index `from` of `src`, if any.
pub fn find_simple(src: &Vec<char>, from: usize) -> (r: Option<usize>)
    requires
        from <= src.len(),
    ensures
        match r {
            Some(k) => simple_match(src@, from as int) == Some(k as int) && k
                < SIMPLE_TOKEN_COUNT,
            None => simple_match(src@, from as int) is None,
        },
{
    let mut k: usize = 0;
    while k < SIMPLE_TOKEN_COUNT
        invariant
            k <= SIMPLE_TOKEN_COUNT,
            from <= src.len(),
            first_simple_from(src@, from as int, k as int) == simple_match(src@, from as int),
        decreases SIMPLE_TOKEN_COUNT - k,
    {
        let entry = simple_entry(k);
        if text_matches(src, from, entry.0) {
            return Some(k);
        }
        k += 1;
    }
    None
}

/// The number of characters of the text of entry `k`.
pub fn simple_length(k: usize) -> (n: usize)
    requires
        k < SIMPLE_TOKEN_COUNT,
    ensures
        n == simple_text(k as int).len(),
        1 <= n <= 3,
{
    proof {
        lemma_simple_text_len(k as int);
    }
    if k == 1 {
        2
    } else if k < 7 {
        3
    } else if k < 25 {
        2
    } else {
        1
    }
}

} // verus!
