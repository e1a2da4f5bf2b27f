use rustpy_compiler::indentation::width_of;
use rustpy_compiler::simple::{find_simple, simple_entry, simple_length, SIMPLE_TOKEN_COUNT};
use rustpy_compiler::text::{chars_of, len_utf8, string_of};
use rustpy_compiler::unicode::{is_identifier_continue, is_identifier_start, normalize_name};
use rustpy_compiler::{tokenize, Token, TokenType, Tokenizer};

fn texts(source: &str, tokens: &Vec<Token>) -> String {
    let mut out = String::new();
    for t in tokens {
        out.push_str(&source[t.start..t.end]);
    }
    out
}

#[test]
fn round_trip_without_skipped_whitespace() {
    for source in [
        "",
        "a=1\n",
        "if(x):\n    y=f(1,\n2)\n",
        "x='a b'#c d\n",
        "a:\n\tb:\n\t\tc\nd\n",
        "caf\u{e9}=\u{fb01}\r\n",
    ] {
        let tokens = tokenize(source).unwrap();
        assert_eq!(texts(source, &tokens), source);
    }
}

#[test]
fn skipped_whitespace_is_in_no_token() {
    let source = "a = 1\n";
    let tokens = tokenize(source).unwrap();
    assert_eq!(texts(source, &tokens), "a=1\n");
}

#[test]
fn tokens_tile_the_source_with_whitespace_between() {
    for source in [
        "a = 1\n",
        "if x:\n    y = 1\n  \n    z = [1,\n  2]  # end\n",
        "a:\n  b:\n    c\n  d \t\x0c e\n",
        "\u{3b1} = '\u{1f600}' + \u{3b2}\n",
    ] {
        let tokens = tokenize(source).unwrap();
        let mut at = 0;
        for t in &tokens {
            assert!(at <= t.start && t.start <= t.end && t.end <= source.len());
            for c in source[at..t.start].chars() {
                assert!(c == ' ' || c == '\t' || c == '\x0c');
            }
            if t.token_type != TokenType::Name {
                assert_eq!(&source[t.start..t.end], t.value);
            }
            at = t.end;
        }
        assert_eq!(at, source.len());
        let last = tokens.last().unwrap();
        assert_eq!(last.token_type, TokenType::EndMarker);
        let mut markers = 0;
        for t in &tokens {
            if t.token_type == TokenType::EndMarker {
                markers += 1;
            }
        }
        assert_eq!(markers, 1);
    }
}

#[test]
fn longest_fixed_token_wins() {
    for (source, kind, len) in [
        ("*", TokenType::Star, 1),
        ("**", TokenType::DoubleStar, 2),
        ("**=", TokenType::DoubleStarEqual, 3),
        ("*=", TokenType::StarEqual, 2),
        ("/", TokenType::Slash, 1),
        ("//", TokenType::DoubleSlash, 2),
        ("//=", TokenType::DoubleSlashEqual, 3),
        (">", TokenType::Greater, 1),
        (">>", TokenType::RightShift, 2),
        (">>=", TokenType::RightShiftEqual, 3),
        (">=", TokenType::GreaterEqual, 2),
        ("<<=", TokenType::LeftShiftEqual, 3),
        ("...", TokenType::Ellipsis, 3),
        ("..", TokenType::Dot, 1),
        ("->", TokenType::RightArrow, 2),
        ("-", TokenType::Minus, 1),
    ] {
        let mut tokenizer = Tokenizer::new(source);
        let token = tokenizer.next().unwrap().unwrap();
        assert_eq!(token.token_type, kind);
        assert_eq!(token.end - token.start, len);
    }
}

#[test]
fn table_search_finds_the_longest_entry_that_matches() {
    for source in ["**=x", "**x", "*x", ">>=", ">>", ">", "...", "..", ".", "\\\n", "\\\r\n", "!=", "!"] {
        let chars = chars_of(source);
        let found = find_simple(&chars, 0);
        let mut longest: Option<usize> = None;
        for k in 0..SIMPLE_TOKEN_COUNT {
            let (text, _) = simple_entry(k);
            assert_eq!(text.chars().count(), simple_length(k));
            if source.starts_with(text) {
                let better = match longest {
                    None => true,
                    Some(b) => simple_length(k) > simple_length(b),
                };
                if better {
                    longest = Some(k);
                }
            }
        }
        assert_eq!(found, longest);
    }
}

#[test]
fn indentation_stack_widths_increase() {
    let source = "a:\n  b:\n  \tc:\n  \t d\n  e:\n      f\n";
    let mut tokenizer = Tokenizer::new(source);
    loop {
        let step = tokenizer.next().unwrap();
        let mut below: u128 = 0;
        for level in &tokenizer.indentation_stack {
            let width = width_of(level, 0, level.len());
            assert!(width > below);
            below = width;
        }
        if step.is_none() {
            break;
        }
    }
    assert!(tokenizer.indentation_stack.is_empty());
}

#[test]
fn indents_and_dedents_balance() {
    for source in [
        "a\n",
        "a:\n  b\n",
        "a:\n  b:\n    c:\n      d\n",
        "a:\n  b:\n    c\n  d:\n    e\nf\n",
        "  a:\n    b",
    ] {
        let mut tokenizer = Tokenizer::new(source);
        let mut indents = 0;
        let mut dedents = 0;
        while let Some(token) = tokenizer.next().unwrap() {
            if token.token_type == TokenType::Indent {
                indents += 1;
            }
            if token.token_type == TokenType::Dedent {
                dedents += 1;
            }
            assert_eq!(
                indents - dedents,
                tokenizer.indentation_stack.len() + tokenizer.token_buffer.len()
            );
        }
        assert_eq!(indents, dedents);
        assert_eq!(tokenizer.indentation_stack.len(), 0);
    }
}

#[test]
fn no_line_structure_inside_brackets() {
    let source = "x = [\n    1,\n        (2,\n  3),\n{\n'a': 4}\n]\nif y:\n    z\n";
    let mut tokenizer = Tokenizer::new(source);
    loop {
        let open = tokenizer.parentheses_level > 0;
        match tokenizer.next().unwrap() {
            None => break,
            Some(token) => {
                if open {
                    assert_ne!(token.token_type, TokenType::Indent);
                    assert_ne!(token.token_type, TokenType::Dedent);
                    assert_ne!(token.token_type, TokenType::NewlineLogical);
                }
            },
        }
    }
    let tokens = tokenize(source).unwrap();
    let mut continuations = 0;
    for t in &tokens {
        if t.token_type == TokenType::NewlineContinuation {
            continuations += 1;
        }
    }
    assert_eq!(continuations, 6);
}

#[test]
fn normalizing_twice_changes_nothing() {
    for text in ["abc", "\u{fb01}", "e\u{301}", "\u{2126}", "\u{ff21}\u{ff42}", "\u{1e9b}\u{323}", ""] {
        let once = normalize_name(text);
        let twice = normalize_name(&once);
        assert_eq!(once, twice);
    }
    assert_eq!(normalize_name("\u{fb01}"), "fi");
    assert_eq!(normalize_name("\u{2126}"), "\u{3a9}");
    assert_eq!(normalize_name("e\u{301}"), "\u{e9}");
}

#[test]
fn identifier_classes() {
    assert!(is_identifier_start('a'));
    assert!(is_identifier_start('Z'));
    assert!(is_identifier_start('_'));
    assert!(is_identifier_start('\u{e9}'));
    assert!(is_identifier_start('\u{4e2d}'));
    assert!(!is_identifier_start('1'));
    assert!(!is_identifier_start(' '));
    assert!(!is_identifier_start('\u{25b3}'));
    assert!(!is_identifier_start('\u{301}'));
    assert!(is_identifier_continue('a'));
    assert!(is_identifier_continue('1'));
    assert!(is_identifier_continue('_'));
    assert!(is_identifier_continue('\u{301}'));
    assert!(!is_identifier_continue('-'));
    assert!(!is_identifier_continue('\u{25b3}'));
}

#[test]
fn byte_lengths_of_characters() {
    for c in ['\0', 'a', '\u{7f}', '\u{80}', '\u{e9}', '\u{7ff}', '\u{800}', '\u{ffff}', '\u{10000}', '\u{10ffff}'] {
        assert_eq!(len_utf8(c), c.len_utf8());
    }
}

#[test]
fn characters_and_strings_convert_both_ways() {
    let source = "a\u{e9}\u{4e2d}\u{1f600}z";
    let chars = chars_of(source);
    assert_eq!(chars, vec!['a', '\u{e9}', '\u{4e2d}', '\u{1f600}', 'z']);
    assert_eq!(string_of(&chars, 0, 5), source);
    assert_eq!(string_of(&chars, 1, 3), "\u{e9}\u{4e2d}");
    assert_eq!(string_of(&chars, 2, 2), "");
}

#[test]
fn spans_are_byte_offsets() {
    let source = "\u{3b1}\u{3b2} = '\u{1f600}'\n";
    let tokens = tokenize(source).unwrap();
    assert_eq!((tokens[0].start, tokens[0].end), (0, 4));
    assert_eq!((tokens[1].start, tokens[1].end), (5, 6));
    assert_eq!((tokens[2].start, tokens[2].end), (7, 13));
    assert_eq!((tokens[3].start, tokens[3].end), (13, 14));
    assert_eq!(&source[tokens[2].start..tokens[2].end], "'\u{1f600}'");
}
