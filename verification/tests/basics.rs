use rustpy_compiler::{fraction, Token, TokenType, Tokenizer};

fn token(token_type: TokenType, value: &str, start: usize, end: usize) -> Token {
    Token { token_type, value: String::from(value), start, end }
}

#[test]
fn it_works() {
    assert_eq!(2 + 2, 4);
}

#[test]
fn tokenizer_simple_token_three_chars_exact_match() {
    let tokenizer = Tokenizer::new(">>=");
    let expected = Some(token(TokenType::RightShiftEqual, ">>=", 0, 3));
    let actual = tokenizer.simple(">>=", TokenType::RightShiftEqual);
    assert_eq!(expected, actual);
}

#[test]
fn tokenizer_simple_token_two_chars_exact_match() {
    let tokenizer = Tokenizer::new(">>");
    let expected = Some(token(TokenType::RightShift, ">>", 0, 2));
    let actual = tokenizer.simple(">>", TokenType::RightShift);
    assert_eq!(expected, actual);
}

#[test]
fn tokenizer_simple_token_one_char_exact_match() {
    let tokenizer = Tokenizer::new(">");
    let expected = Some(token(TokenType::Greater, ">", 0, 1));
    let actual = tokenizer.simple(">", TokenType::Greater);
    assert_eq!(expected, actual);
}

#[test]
fn tokenizer_simple_token_val_length_greater_than_source() {
    let tokenizer = Tokenizer::new(">>");
    let expected = None;
    let actual = tokenizer.simple(">>=", TokenType::RightShiftEqual);
    assert_eq!(expected, actual);
}

#[test]
fn tokenizer_ampersand_with_more_characters() {
    let mut tokenizer = Tokenizer::new("&abcd");
    let expected = Ok(Some(token(TokenType::Ampersand, "&", 0, 1)));
    let actual = tokenizer.next();
    assert_eq!(expected, actual);
}

#[test]
fn tokenizer_ampersand_last_character_in_source() {
    let mut tokenizer = Tokenizer::new("&");
    let expected = Ok(Some(token(TokenType::Ampersand, "&", 0, 1)));
    let actual = tokenizer.next();
    assert_eq!(expected, actual);
}

#[test]
fn tokenizer_ampersand_equal_with_more_characters() {
    let mut tokenizer = Tokenizer::new("&=abcd");
    let expected = Ok(Some(token(TokenType::AmpersandEqual, "&=", 0, 2)));
    let actual = tokenizer.next();
    assert_eq!(expected, actual);
}

#[test]
fn tokenizer_ampersand_equal_last_character_in_source() {
    let mut tokenizer = Tokenizer::new("&=");
    let expected = Ok(Some(token(TokenType::AmpersandEqual, "&=", 0, 2)));
    let actual = tokenizer.next();
    assert_eq!(expected, actual);
}

#[test]
fn dummy() {
    let mut tokenizer =
        Tokenizer::new("def some_func():\n    x = some_var #this is a comment\n    return x");
    println!("{:?}", tokenizer.next());
    println!("{:?}", tokenizer.next());
    println!("{:?}", tokenizer.next());
    println!("{:?}", tokenizer.next());
    println!("{:?}", tokenizer.next());
    println!("{:?}", tokenizer.next());
    println!("{:?}", tokenizer.next());
    println!("{:?}", tokenizer.next());
    println!("{:?}", tokenizer.next());
    println!("{:?}", tokenizer.next());
    println!("{:?}", tokenizer.next());
    println!("{:?}", tokenizer.next());
    println!("{:?}", tokenizer.next());
    println!("{:?}", tokenizer.next());
    println!("{:?}", tokenizer.next());
    println!("{:?}", tokenizer.next());

    assert!(true);
}

#[test]
fn ops() {
    let mut tokenizer = Tokenizer::new("def some_func():");
    println!("{:?}", tokenizer.position);
    println!("{:?}", tokenizer.next());
    println!("{:?}", tokenizer.position);
    println!("{:?}", tokenizer.next());
    println!("{:?}", tokenizer.position);
    println!("{:?}", tokenizer.next());
    println!("{:?}", tokenizer.position);
    println!("{:?}", tokenizer.next());
    println!("{:?}", tokenizer.position);
    println!("{:?}", tokenizer.next());

    assert!(true);
}

#[test]
fn mod_simple_token_three_chars_exact_match() {
    let tokenizer = Tokenizer::new(">>=");
    let expected = Some(token(TokenType::RightShiftEqual, ">>=", 0, 3));
    let actual = tokenizer.simple(">>=", TokenType::RightShiftEqual);
    assert_eq!(expected, actual);
}

#[test]
fn mod_simple_token_two_chars_exact_match() {
    let tokenizer = Tokenizer::new(">>");
    let expected = Some(token(TokenType::RightShift, ">>", 0, 2));
    let actual = tokenizer.simple(">>", TokenType::RightShift);
    assert_eq!(expected, actual);
}

#[test]
fn mod_simple_token_one_char_exact_match() {
    let tokenizer = Tokenizer::new(">");
    let expected = Some(token(TokenType::Greater, ">", 0, 1));
    let actual = tokenizer.simple(">", TokenType::Greater);
    assert_eq!(expected, actual);
}

#[test]
fn mod_simple_token_val_length_greater_than_source() {
    let tokenizer = Tokenizer::new(">>");
    let expected = None;
    let actual = tokenizer.simple(">>=", TokenType::RightShiftEqual);
    assert_eq!(expected, actual);
}

#[test]
fn mod_ampersand_with_more_characters() {
    let mut tokenizer = Tokenizer::new("&abcd");
    let expected = Ok(Some(token(TokenType::Ampersand, "&", 0, 1)));
    let actual = tokenizer.next();
    assert_eq!(expected, actual);
}

#[test]
fn mod_ampersand_last_character_in_source() {
    let mut tokenizer = Tokenizer::new("&");
    let expected = Ok(Some(token(TokenType::Ampersand, "&", 0, 1)));
    let actual = tokenizer.next();
    assert_eq!(expected, actual);
}

#[test]
fn mod_ampersand_equal_with_more_characters() {
    let mut tokenizer = Tokenizer::new("&=abcd");
    let expected = Ok(Some(token(TokenType::AmpersandEqual, "&=", 0, 2)));
    let actual = tokenizer.next();
    assert_eq!(expected, actual);
}

#[test]
fn mod_ampersand_equal_last_character_in_source() {
    let mut tokenizer = Tokenizer::new("&=");
    let expected = Ok(Some(token(TokenType::AmpersandEqual, "&=", 0, 2)));
    let actual = tokenizer.next();
    assert_eq!(expected, actual);
}

#[test]
fn fraction_entire_string_is_token_2_chars() {
    let expected = token(TokenType::Number, ".1", 0, 2);
    let actual = fraction(".1");
    assert_eq!(expected, actual);
}

#[test]
fn fraction_entire_string_is_token_many_chars_no_underscores() {
    let expected = token(TokenType::Number, ".1789078875675", 0, 14);
    let actual = fraction(".1789078875675");
    assert_eq!(expected, actual);
}

#[test]
fn fraction_entire_string_is_token_with_underscores() {
    let expected = token(TokenType::Number, ".178_907_887_567_5", 0, 18);
    let actual = fraction(".178_907_887_567_5");
    assert_eq!(expected, actual);
}

#[test]
fn fraction_only_part_of_string_is_token() {
    let expected = token(TokenType::Number, ".1", 0, 2);
    let actual = fraction(".1abcd123");
    assert_eq!(expected, actual);
}

#[test]
fn fraction_with_dangling_underscore() {
    let expected = token(TokenType::Number, ".178_907_887_567", 0, 16);
    let actual = fraction(".178_907_887_567_");
    assert_eq!(expected, actual);
}
