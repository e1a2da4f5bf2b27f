use rustpy_compiler::{comment, name, number, tokenize, Token, TokenError, TokenType, Tokenizer};

fn kinds(source: &str) -> Vec<TokenType> {
    let mut out = Vec::new();
    for t in tokenize(source).unwrap() {
        out.push(t.token_type);
    }
    out
}

fn values(source: &str) -> Vec<String> {
    let mut out = Vec::new();
    for t in tokenize(source).unwrap() {
        out.push(t.value);
    }
    out
}

fn token(token_type: TokenType, value: &str, start: usize, end: usize) -> Token {
    Token { token_type, value: String::from(value), start, end }
}

#[test]
fn assignment_line() {
    let tokens = tokenize("a = 1\n").unwrap();
    assert_eq!(
        tokens,
        vec![
            token(TokenType::Name, "a", 0, 1),
            token(TokenType::Equal, "=", 2, 3),
            token(TokenType::Number, "1", 4, 5),
            token(TokenType::NewlineLogical, "\n", 5, 6),
            token(TokenType::EndMarker, "", 6, 6),
        ]
    );
}

#[test]
fn indented_block() {
    let tokens = tokenize("if x:\n    y = 1\n").unwrap();
    assert_eq!(
        tokens,
        vec![
            token(TokenType::Name, "if", 0, 2),
            token(TokenType::Name, "x", 3, 4),
            token(TokenType::Colon, ":", 4, 5),
            token(TokenType::NewlineLogical, "\n", 5, 6),
            token(TokenType::Indent, "    ", 6, 10),
            token(TokenType::Name, "y", 10, 11),
            token(TokenType::Equal, "=", 12, 13),
            token(TokenType::Number, "1", 14, 15),
            token(TokenType::NewlineLogical, "\n", 15, 16),
            token(TokenType::Dedent, "", 16, 16),
            token(TokenType::EndMarker, "", 16, 16),
        ]
    );
}

#[test]
fn newline_inside_brackets_continues() {
    assert_eq!(
        kinds("f(1,\n2)\n"),
        vec![
            TokenType::Name,
            TokenType::LeftParenthesis,
            TokenType::Number,
            TokenType::Comma,
            TokenType::NewlineContinuation,
            TokenType::Number,
            TokenType::RightParenthesis,
            TokenType::NewlineLogical,
            TokenType::EndMarker,
        ]
    );
}

#[test]
fn single_underscore_between_digits() {
    assert_eq!(values("x = 1_0\n"), vec!["x", "=", "1_0", "\n", ""]);
}

#[test]
fn double_underscore_ends_number() {
    let tokens = tokenize("x = 1__0\n").unwrap();
    assert_eq!(tokens[2], token(TokenType::Number, "1", 4, 5));
    assert_eq!(tokens[3], token(TokenType::Name, "__0", 5, 8));
    assert_eq!(tokens[4].token_type, TokenType::NewlineLogical);
}

#[test]
fn tab_against_spaces_of_equal_width() {
    let source = "if x:\n\ty\n        z\n";
    assert_eq!(tokenize(source), Err(TokenError::IndentationInconsistency { position: 9 }));
}

#[test]
fn dedent_to_unknown_level() {
    let source = "if x:\n    y\n  z\n";
    assert_eq!(tokenize(source), Err(TokenError::IndentationMismatch { position: 12 }));
}

#[test]
fn dedent_with_incompatible_prefix() {
    let source = "if x:\n        y\n\tz\n    w\n";
    assert_eq!(tokenize(source), Err(TokenError::IndentationInconsistency { position: 16 }));
}

#[test]
fn invalid_character() {
    assert_eq!(tokenize("a ? b"), Err(TokenError::InvalidCharacter { position: 2 }));
    assert_eq!(tokenize("a = $"), Err(TokenError::InvalidCharacter { position: 4 }));
}

#[test]
fn lone_carriage_return_is_invalid() {
    assert_eq!(tokenize("a\rb"), Err(TokenError::InvalidCharacter { position: 1 }));
}

#[test]
fn unterminated_string() {
    assert_eq!(tokenize("x = 'abc"), Err(TokenError::UnterminatedString { position: 4 }));
    assert_eq!(tokenize("x = 'abc\n'"), Err(TokenError::UnterminatedString { position: 4 }));
    assert_eq!(tokenize("'''abc''"), Err(TokenError::UnterminatedString { position: 0 }));
    assert_eq!(tokenize("'abc\\"), Err(TokenError::UnterminatedString { position: 0 }));
}

#[test]
fn unbalanced_brackets() {
    assert_eq!(tokenize("(a"), Err(TokenError::UnbalancedBrackets { position: 2 }));
    assert_eq!(tokenize("a)"), Err(TokenError::UnbalancedBrackets { position: 2 }));
    assert_eq!(tokenize("(a\n"), Err(TokenError::UnbalancedBrackets { position: 3 }));
}

#[test]
fn error_position_accessor() {
    assert_eq!(TokenError::InvalidCharacter { position: 7 }.position(), 7);
    assert_eq!(TokenError::UnbalancedBrackets { position: 3 }.position(), 3);
    assert_eq!(TokenError::UnterminatedString { position: 1 }.position(), 1);
    assert_eq!(TokenError::IndentationMismatch { position: 2 }.position(), 2);
    assert_eq!(TokenError::IndentationInconsistency { position: 5 }.position(), 5);
}

#[test]
fn empty_source_is_one_end_marker() {
    assert_eq!(tokenize(""), Ok(vec![token(TokenType::EndMarker, "", 0, 0)]));
}

#[test]
fn nothing_after_end_marker() {
    let mut tokenizer = Tokenizer::new("a");
    assert_eq!(tokenizer.next(), Ok(Some(token(TokenType::Name, "a", 0, 1))));
    assert_eq!(tokenizer.next(), Ok(Some(token(TokenType::EndMarker, "", 1, 1))));
    assert_eq!(tokenizer.next(), Ok(None));
    assert_eq!(tokenizer.next(), Ok(None));
}

#[test]
fn several_blocks_closed_at_once() {
    let source = "a:\n  b:\n    c\nd\n";
    assert_eq!(
        kinds(source),
        vec![
            TokenType::Name,
            TokenType::Colon,
            TokenType::NewlineLogical,
            TokenType::Indent,
            TokenType::Name,
            TokenType::Colon,
            TokenType::NewlineLogical,
            TokenType::Indent,
            TokenType::Name,
            TokenType::NewlineLogical,
            TokenType::Dedent,
            TokenType::Dedent,
            TokenType::Name,
            TokenType::NewlineLogical,
            TokenType::EndMarker,
        ]
    );
    let tokens = tokenize(source).unwrap();
    assert_eq!(tokens[10], token(TokenType::Dedent, "", 14, 14));
    assert_eq!(tokens[11], token(TokenType::Dedent, "", 14, 14));
}

#[test]
fn dedent_to_inner_level() {
    let source = "a:\n  b:\n    c\n  d\n";
    let tokens = tokenize(source).unwrap();
    assert_eq!(tokens[10], token(TokenType::Dedent, "", 14, 14));
    assert_eq!(tokens[11], token(TokenType::Name, "d", 16, 17));
    assert_eq!(tokens[13], token(TokenType::Dedent, "", 18, 18));
    assert_eq!(tokens[14], token(TokenType::EndMarker, "", 18, 18));
}

#[test]
fn blank_and_comment_lines_leave_indentation_alone() {
    let source = "a:\n  b\n\n      # note\n  c\n";
    assert_eq!(
        kinds(source),
        vec![
            TokenType::Name,
            TokenType::Colon,
            TokenType::NewlineLogical,
            TokenType::Indent,
            TokenType::Name,
            TokenType::NewlineLogical,
            TokenType::NewlineLogical,
            TokenType::Comment,
            TokenType::NewlineLogical,
            TokenType::Name,
            TokenType::NewlineLogical,
            TokenType::Dedent,
            TokenType::EndMarker,
        ]
    );
}

#[test]
fn form_feed_counts_no_column() {
    let source = "a:\n  b\n  \x0cc\n";
    assert_eq!(
        kinds(source),
        vec![
            TokenType::Name,
            TokenType::Colon,
            TokenType::NewlineLogical,
            TokenType::Indent,
            TokenType::Name,
            TokenType::NewlineLogical,
            TokenType::Name,
            TokenType::NewlineLogical,
            TokenType::Dedent,
            TokenType::EndMarker,
        ]
    );
}

#[test]
fn form_feed_before_the_block_indentation_is_inconsistent() {
    let source = "a:\n  b\n\x0c  c\n";
    assert_eq!(tokenize(source), Err(TokenError::IndentationInconsistency { position: 7 }));
}

#[test]
fn backslash_newline_is_a_continuation() {
    assert_eq!(
        kinds("a = \\\n  1\n"),
        vec![
            TokenType::Name,
            TokenType::Equal,
            TokenType::NewlineContinuation,
            TokenType::Number,
            TokenType::NewlineLogical,
            TokenType::EndMarker,
        ]
    );
    assert_eq!(values("a\\\r\nb")[1], "\\\r\n");
}

#[test]
fn carriage_return_line_feed_is_one_newline() {
    let tokens = tokenize("a\r\nb").unwrap();
    assert_eq!(tokens[1], token(TokenType::NewlineLogical, "\r\n", 1, 3));
}

#[test]
fn comment_runs_to_line_end() {
    assert_eq!(values("x # note \r one\ny"), vec!["x", "# note \r one", "\n", "y", ""]);
    assert_eq!(comment("# abc\ndef"), token(TokenType::Comment, "# abc", 0, 5));
    assert_eq!(comment("# abc\r\ndef"), token(TokenType::Comment, "# abc", 0, 5));
    assert_eq!(comment("# abc"), token(TokenType::Comment, "# abc", 0, 5));
}

#[test]
fn numbers_in_all_forms() {
    for text in [
        "0", "17", "1_000", "0x1F", "0Xff_ff", "0o17", "0b1010", "1.5", "1.", ".5", "1e10", "1E-3",
        "1.5e+7", "3j", "2.5J", "1_0.0_1e1_0j",
    ] {
        assert_eq!(number(text), token(TokenType::Number, text, 0, text.len()));
        let tokens = tokenize(text).unwrap();
        assert_eq!(tokens.len(), 2);
        assert_eq!(tokens[0], token(TokenType::Number, text, 0, text.len()));
    }
}

#[test]
fn numbers_stop_where_the_grammar_stops() {
    assert_eq!(number("1_"), token(TokenType::Number, "1", 0, 1));
    assert_eq!(number("0x_1"), token(TokenType::Number, "0", 0, 1));
    assert_eq!(number("0xg"), token(TokenType::Number, "0", 0, 1));
    assert_eq!(number("0b12"), token(TokenType::Number, "0b1", 0, 3));
    assert_eq!(number("1e"), token(TokenType::Number, "1", 0, 1));
    assert_eq!(number("1e+"), token(TokenType::Number, "1", 0, 1));
    assert_eq!(number("1._5"), token(TokenType::Number, "1.", 0, 2));
    assert_eq!(number("1jj"), token(TokenType::Number, "1j", 0, 2));
    assert_eq!(number("abc"), token(TokenType::Number, "", 0, 0));
    assert_eq!(number(".x"), token(TokenType::Number, "", 0, 0));
}

#[test]
fn point_without_digit_is_punctuation() {
    assert_eq!(
        kinds("a.b"),
        vec![TokenType::Name, TokenType::Dot, TokenType::Name, TokenType::EndMarker]
    );
    assert_eq!(kinds("..."), vec![TokenType::Ellipsis, TokenType::EndMarker]);
    assert_eq!(kinds(".5"), vec![TokenType::Number, TokenType::EndMarker]);
}

#[test]
fn string_literals() {
    for text in [
        "''", "\"\"", "'abc'", "\"a'b\"", "'a\\'b'", "r'\\n'", "b'xy'", "Rb\"x\"", "bR'x'", "f'{x}'",
        "fr'x'", "rF'x'", "u'x'", "'''a\nb'''", "\"\"\"a\"b\"\"c\"\"\"", "''''''", "'\\\n'",
    ] {
        let tokens = tokenize(text).unwrap();
        assert_eq!(tokens.len(), 2);
        assert_eq!(tokens[0], token(TokenType::String, text, 0, text.len()));
    }
}

#[test]
fn illegal_prefix_is_a_name_before_a_string() {
    assert_eq!(
        kinds("ub'x'"),
        vec![TokenType::Name, TokenType::String, TokenType::EndMarker]
    );
    assert_eq!(kinds("bb'x'")[0], TokenType::Name);
}

#[test]
fn names_are_normalized_and_spans_are_not() {
    let tokens = tokenize("\u{fb01}x = 1").unwrap();
    assert_eq!(tokens[0], token(TokenType::Name, "fix", 0, 4));
    assert_eq!(tokens[1], token(TokenType::Equal, "=", 5, 6));
    assert_eq!(name("\u{fb01}x = 1"), token(TokenType::Name, "fix", 0, 4));
    assert_eq!(name("e\u{301}t\u{e9}"), token(TokenType::Name, "\u{e9}t\u{e9}", 0, 6));
}

#[test]
fn names_follow_the_identifier_classes() {
    assert_eq!(name("caf\u{e9}9_ b"), token(TokenType::Name, "caf\u{e9}9_", 0, 7));
    assert_eq!(name("_x"), token(TokenType::Name, "_x", 0, 2));
    assert_eq!(name("9x"), token(TokenType::Name, "", 0, 0));
    assert_eq!(name("\u{25b3}"), token(TokenType::Name, "", 0, 0));
    assert_eq!(tokenize("\u{25b3}"), Err(TokenError::InvalidCharacter { position: 0 }));
    assert_eq!(
        tokenize("\u{3b1}\u{3b2} \u{25b3}"),
        Err(TokenError::InvalidCharacter { position: 5 })
    );
}

#[test]
fn every_fixed_token() {
    let table = [
        ("\\\r\n", TokenType::NewlineContinuation),
        ("\\\n", TokenType::NewlineContinuation),
        (">>=", TokenType::RightShiftEqual),
        ("<<=", TokenType::LeftShiftEqual),
        ("//=", TokenType::DoubleSlashEqual),
        ("**=", TokenType::DoubleStarEqual),
        ("...", TokenType::Ellipsis),
        ("!=", TokenType::NotEqual),
        ("&=", TokenType::AmpersandEqual),
        ("@=", TokenType::AtEqual),
        ("^=", TokenType::CircumflexEqual),
        ("%=", TokenType::PercentEqual),
        ("+=", TokenType::PlusEqual),
        ("|=", TokenType::VerticalBarEqual),
        ("==", TokenType::DoubleEqual),
        ("-=", TokenType::MinusEqual),
        ("->", TokenType::RightArrow),
        (">>", TokenType::RightShift),
        (">=", TokenType::GreaterEqual),
        ("<<", TokenType::LeftShift),
        ("<=", TokenType::LessEqual),
        ("//", TokenType::DoubleSlash),
        ("/=", TokenType::SlashEqual),
        ("**", TokenType::DoubleStar),
        ("*=", TokenType::StarEqual),
        (":", TokenType::Colon),
        (",", TokenType::Comma),
        (";", TokenType::Semicolon),
        ("~", TokenType::Tilde),
        ("&", TokenType::Ampersand),
        ("@", TokenType::At),
        ("^", TokenType::Circumflex),
        ("%", TokenType::Percent),
        ("+", TokenType::Plus),
        ("|", TokenType::VerticalBar),
        ("=", TokenType::Equal),
        ("-", TokenType::Minus),
        (">", TokenType::Greater),
        ("<", TokenType::Less),
        ("/", TokenType::Slash),
        ("*", TokenType::Star),
        (".", TokenType::Dot),
        ("(", TokenType::LeftParenthesis),
        ("[", TokenType::LeftSquareBracket),
        ("{", TokenType::LeftBrace),
        (")", TokenType::RightParenthesis),
        ("]", TokenType::RightSquareBracket),
        ("}", TokenType::RightBrace),
    ];
    for (text, kind) in table {
        let mut tokenizer = Tokenizer::new(text);
        let mut source = String::from("x ");
        source.push_str(text);
        let mut prefixed = Tokenizer::new(&source);
        assert_eq!(prefixed.next(), Ok(Some(token(TokenType::Name, "x", 0, 1))));
        assert_eq!(prefixed.next(), Ok(Some(token(kind, text, 2, 2 + text.len()))));
        assert_eq!(tokenizer.next(), Ok(Some(token(kind, text, 0, text.len()))));
    }
}

#[test]
fn scanner_methods_look_at_the_cursor() {
    let mut tokenizer = Tokenizer::new("ab 12 'c' # d\n");
    assert_eq!(tokenizer.name(), Some(token(TokenType::Name, "ab", 0, 2)));
    assert_eq!(tokenizer.number(), None);
    assert_eq!(tokenizer.string(), Ok(None));
    assert_eq!(tokenizer.whitespace_bytes(), 0);
    tokenizer.next().unwrap();
    assert_eq!(tokenizer.position, 2);
    assert_eq!(tokenizer.whitespace_bytes(), 1);
    tokenizer.next().unwrap();
    assert_eq!(tokenizer.position, 5);
    tokenizer.next().unwrap();
    tokenizer.next().unwrap();
    assert_eq!(tokenizer.position, 13);
    assert_eq!(tokenizer.newline("\n"), Some(token(TokenType::NewlineLogical, "\n", 13, 14)));
    assert_eq!(tokenizer.newline("\r\n"), None);
    assert_eq!(tokenizer.comment(), Some(token(TokenType::Comment, "", 13, 13)));
    let inside = Tokenizer::new("12'c'#d");
    assert_eq!(inside.number(), Some(token(TokenType::Number, "12", 0, 2)));
    assert_eq!(inside.name(), None);
    let mut open = Tokenizer::new("(\n'x");
    open.next().unwrap();
    assert_eq!(open.parentheses_level, 1);
    assert_eq!(open.newline("\n"), Some(token(TokenType::NewlineContinuation, "\n", 1, 2)));
    open.next().unwrap();
    assert_eq!(open.string(), Err(TokenError::UnterminatedString { position: 2 }));
    let quoted = Tokenizer::new("'x' y");
    assert_eq!(quoted.string(), Ok(Some(token(TokenType::String, "'x'", 0, 3))));
    let noted = Tokenizer::new("#d\ne");
    assert_eq!(noted.comment(), Some(token(TokenType::Comment, "#d", 0, 2)));
}

#[test]
fn indentation_level_formula() {
    assert_eq!(Tokenizer::indentation_level(""), 0);
    assert_eq!(Tokenizer::indentation_level("   "), 3);
    assert_eq!(Tokenizer::indentation_level("\t"), 8);
    assert_eq!(Tokenizer::indentation_level("  \t"), 8);
    assert_eq!(Tokenizer::indentation_level("        \t"), 16);
    assert_eq!(Tokenizer::indentation_level("\t  "), 10);
    assert_eq!(Tokenizer::indentation_level(" \x0c \x0c"), 2);
    assert_eq!(Tokenizer::indentation_level("\t\t "), 17);
}

#[test]
fn whitespace_characters() {
    assert!(Tokenizer::is_whitespace(' '));
    assert!(Tokenizer::is_whitespace('\t'));
    assert!(Tokenizer::is_whitespace('\x0c'));
    assert!(!Tokenizer::is_whitespace('\n'));
    assert!(!Tokenizer::is_whitespace('\r'));
    assert!(!Tokenizer::is_whitespace('a'));
    assert!(!Tokenizer::is_whitespace('\u{a0}'));
}

#[test]
fn indentation_at_the_first_line() {
    assert_eq!(
        kinds("  a\n"),
        vec![
            TokenType::Indent,
            TokenType::Name,
            TokenType::NewlineLogical,
            TokenType::Dedent,
            TokenType::EndMarker,
        ]
    );
}

#[test]
fn source_without_final_newline_closes_its_blocks() {
    assert_eq!(
        kinds("a:\n  b"),
        vec![
            TokenType::Name,
            TokenType::Colon,
            TokenType::NewlineLogical,
            TokenType::Indent,
            TokenType::Name,
            TokenType::Dedent,
            TokenType::EndMarker,
        ]
    );
}

#[test]
fn cursor_exposes_what_is_left() {
    let mut tokenizer = Tokenizer::new("ab \u{e9}=1");
    assert_eq!(tokenizer.remaining(), "ab \u{e9}=1");
    assert!(!tokenizer.is_finished());
    tokenizer.next().unwrap();
    assert_eq!(tokenizer.remaining(), " \u{e9}=1");
    tokenizer.next().unwrap();
    assert_eq!(tokenizer.remaining(), "=1");
    assert_eq!(tokenizer.position, 5);
    tokenizer.next().unwrap();
    tokenizer.next().unwrap();
    assert_eq!(tokenizer.remaining(), "");
    assert!(!tokenizer.is_finished());
    assert_eq!(tokenizer.next().unwrap().unwrap().token_type, TokenType::EndMarker);
    assert!(tokenizer.is_finished());
    assert_eq!(tokenizer.previous_token_type, Some(TokenType::EndMarker));
}
