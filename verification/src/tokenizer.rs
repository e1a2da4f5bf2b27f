//! The tokenizer: one instance per source text, pulled one token at a time.

use vstd::prelude::*;
use std::collections::VecDeque;
use crate::comment::{comment_end, scan_comment};
use crate::indentation::{
    at_blank_line,
    current_indentation,
    indentation_width,
    is_prefix,
    levels_kept,
    lemma_track_preserves_order,
    stack_after,
    track_indentation,
    width_of,
    IndentChange,
};
use crate::machine::{
    dedent_at,
    dedents_at,
    lemma_lexeme_at,
    lemma_step,
    lex,
    lexeme_at,
    line_start_rank,
    run,
    step,
    token_of,
    tokens_of,
    unfinished,
    Lexeme,
    State,
};
use crate::name::{name_end, scan_name, starts_name};
use crate::newline::{
    lemma_whitespace_end,
    newline_kind,
    scan_newline,
    skip_whitespace,
    whitespace_end,
};
use crate::number::{number_end, scan_number, starts_number};
use crate::simple::{
    find_simple,
    lemma_simple_match_bounds,
    matches_at,
    simple_entry,
    text_matches,
};
use crate::string_literal::{scan_string, scan_string_prefix, starts_string, string_end};
use crate::text::{
    byte_len,
    byte_offset,
    chars_of,
    is_whitespace,
    is_whitespace_char,
    lemma_byte_len_is_encoding_len,
    lemma_byte_len_subrange,
    lemma_byte_offset_ends,
    lemma_byte_offset_monotone,
    string_of,
};
use crate::token::{Token, TokenError, TokenType, TokenView};
use crate::unicode::normalize_name;

verus! {

/// A tokenizer of one source text.
///
/// It is created fresh for a text, consumed by calls of [`Tokenizer::next`],
/// and exhausted once the end marker has been produced.
pub struct Tokenizer<'a> {
    /// The source text, which must be valid UTF-8, as every `str` is.
    pub source: &'a str,
    /// The characters of the source.
    chars: Vec<char>,
    /// The index of the next character to read.
    cursor: usize,
    /// The byte offset of the next character to read.
    pub position: usize,
    /// Open brackets minus closed brackets.  The type is wide enough for
    /// every text that fits in memory.
    pub parentheses_level: i128,
    /// The kind of the last token that a scanner or the indentation tracker
    /// produced.  It decides whether the next token begins a logical line.
    pub previous_token_type: Option<TokenType>,
    /// The indentation of each open block, outermost first.
    pub indentation_stack: Vec<Vec<char>>,
    /// Tokens that are computed and not yet delivered: the second and later
    /// dedents where one line closes several blocks.
    pub token_buffer: VecDeque<Token>,
    /// Whether the end marker has been produced.
    finished: bool,
}

/// The indentation stack as a sequence of texts.
pub open spec fn stack_view(stack: Seq<Vec<char>>) -> Seq<Seq<char>> {
    Seq::new(stack.len(), |k: int| stack[k]@)
}

/// The mathematical content of each of the tokens.
pub open spec fn views(tokens: Seq<Token>) -> Seq<TokenView> {
    Seq::new(tokens.len(), |k: int| tokens[k]@)
}

impl<'a> View for Tokenizer<'a> {
    type V = State;

    closed spec fn view(&self) -> State {
        State {
            cursor: self.cursor as int,
            depth: self.parentheses_level as int,
            previous: self.previous_token_type,
            indents: stack_view(self.indentation_stack@),
            pending: dedents_at(self.cursor as int, self.token_buffer@.len()),
            finished: self.finished,
        }
    }
}

impl<'a> Tokenizer<'a> {
    /// The characters of the source.
    pub closed spec fn text(&self) -> Seq<char> {
        self.chars@
    }

    /// The cursor and the source agree: the characters are those of the
    /// source, the cursor is inside them, and `position` is its byte
    /// offset.
    pub closed spec fn wf_source(&self) -> bool {
        &&& self.chars@ == self.source@
        &&& byte_len(self.chars@) <= usize::MAX
        &&& self.cursor <= self.chars.len()
        &&& self.position == byte_offset(self.chars@, self.cursor as int)
    }

    /// The tokenizer is in a state that a fresh tokenizer of its source can
    /// reach by production steps.
    pub closed spec fn wf(&self) -> bool {
        &&& self.wf_source()
        &&& self@.inv(self.chars@)
        &&& -(self.cursor as int) <= self.parentheses_level <= self.cursor
        &&& forall|k: int|
            0 <= k < self.token_buffer@.len() ==> (#[trigger] self.token_buffer@[k])@ == token_of(
                self.chars@,
                dedent_at(self.cursor as int),
            )
    }

    /// A fresh tokenizer of `source`.
    pub fn new(source: &'a str) -> (tokenizer: Tokenizer<'a>)
        ensures
            tokenizer.wf(),
            tokenizer.text() == source@,
            tokenizer@ == State::initial(),
    {
        let chars = chars_of(source);
        let bytes = source.as_bytes().len();
        proof {
            lemma_byte_len_is_encoding_len(source@);
            lemma_byte_offset_ends(chars@);
        }
        let tokenizer = Tokenizer {
            source,
            chars,
            cursor: 0,
            position: 0,
            parentheses_level: 0,
            previous_token_type: None,
            indentation_stack: Vec::new(),
            token_buffer: VecDeque::new(),
            finished: false,
        };
        proof {
            assert(tokenizer@.indents =~= Seq::<Seq<char>>::empty());
            assert(tokenizer@.pending =~= Seq::<Lexeme>::empty());
        }
        tokenizer
    }

    /// The part of the source that has not been read: the characters from
    /// the cursor on.
    pub fn remaining(&self) -> (rest: String)
        requires
            self.wf(),
        ensures
            rest@ == self.text().subrange(self@.cursor, self.text().len() as int),
    {
        string_of(&self.chars, self.cursor, self.chars.len())
    }

    /// Whether the end marker has been produced, after which no token
    /// follows.
    pub fn is_finished(&self) -> (finished: bool)
        ensures
            finished == self@.finished,
    {
        self.finished
    }

    /// Whether `character` is a space, a tab or a form feed.
    pub fn is_whitespace(character: char) -> (r: bool)
        ensures
            r == is_whitespace_char(character),
    {
        is_whitespace(character)
    }

    /// The indentation width of `indentation`: a space counts one column, a
    /// tab goes to the next multiple of eight, and a form feed counts
    /// nothing.
    pub fn indentation_level(indentation: &str) -> (width: u128)
        ensures
            width == indentation_width(indentation@),
    {
        let chars = chars_of(indentation);
        proof {
            assert(chars@.subrange(0, chars@.len() as int) =~= chars@);
        }
        width_of(&chars, 0, chars.len())
    }

    /// The token of the given kind that spans the characters from the
    /// cursor up to index `end`.
    fn make_token(&self, kind: TokenType, end: usize) -> (token: Token)
        requires
            self.wf_source(),
            self.cursor <= end <= self.chars.len(),
        ensures
            token@ == token_of(
                self.chars@,
                Lexeme { kind, start: self.cursor as int, end: end as int },
            ),
            token.start == self.position,
            token.end == byte_offset(self.chars@, end as int),
    {
        let text = string_of(&self.chars, self.cursor, end);
        proof {
            lemma_byte_len_is_encoding_len(text@);
            lemma_byte_len_subrange(self.chars@, self.cursor as int, end as int);
            lemma_byte_offset_monotone(self.chars@, end as int, self.chars@.len() as int);
            lemma_byte_offset_ends(self.chars@);
        }
        let len = text.as_str().len();
        let value = match kind {
            TokenType::Name => normalize_name(text.as_str()),
            _ => text,
        };
        Token { token_type: kind, value, start: self.position, end: self.position + len }
    }
}

/// The scanners, each looking at the cursor without moving it.
impl<'a> Tokenizer<'a> {
    /// How many bytes of whitespace stand at the cursor.
    pub fn whitespace_bytes(&self) -> (n: usize)
        requires
            self.wf(),
        ensures
            n == whitespace_end(self.text(), self@.cursor) - self@.cursor,
    {
        skip_whitespace(&self.chars, self.cursor) - self.cursor
    }

    /// The fixed token with the text `value`, if that text stands at the
    /// cursor.
    pub fn simple(&self, value: &str, token_type: TokenType) -> (r: Option<Token>)
        requires
            self.wf(),
        ensures
            match r {
                Some(token) => matches_at(self.text(), self@.cursor, value@) && token@
                    == (TokenView {
                    token_type,
                    value: value@,
                    start: byte_offset(self.text(), self@.cursor),
                    end: byte_offset(self.text(), self@.cursor + value@.len()),
                }),
                None => !matches_at(self.text(), self@.cursor, value@),
            },
    {
        if text_matches(&self.chars, self.cursor, value) {
            proof {
                let end = self.cursor + value@.len();
                lemma_byte_len_is_encoding_len(value@);
                lemma_byte_len_subrange(self.chars@, self.cursor as int, end);
                lemma_byte_offset_monotone(self.chars@, end, self.chars@.len() as int);
                lemma_byte_offset_ends(self.chars@);
            }
            Some(
                Token {
                    token_type,
                    value: value.to_owned(),
                    start: self.position,
                    end: self.position + value.len(),
                },
            )
        } else {
            None
        }
    }

    /// The comment at the cursor: everything up to the end of the line.
    pub fn comment(&self) -> (r: Option<Token>)
        requires
            self.wf(),
        ensures
            r matches Some(token) && token@ == token_of(
                self.text(),
                Lexeme {
                    kind: TokenType::Comment,
                    start: self@.cursor,
                    end: comment_end(self.text(), self@.cursor),
                },
            ),
    {
        let end = scan_comment(&self.chars, self.cursor);
        Some(self.make_token(TokenType::Comment, end))
    }

    /// The newline token for the line terminator `value`, if it stands at
    /// the cursor.  Inside open brackets it continues the logical line;
    /// elsewhere it ends it.
    pub fn newline(&self, value: &str) -> (r: Option<Token>)
        requires
            self.wf(),
        ensures
            match r {
                Some(token) => matches_at(self.text(), self@.cursor, value@) && token@
                    == (TokenView {
                    token_type: newline_kind(self@.depth),
                    value: value@,
                    start: byte_offset(self.text(), self@.cursor),
                    end: byte_offset(self.text(), self@.cursor + value@.len()),
                }),
                None => !matches_at(self.text(), self@.cursor, value@),
            },
    {
        let token_type = if self.parentheses_level > 0 {
            TokenType::NewlineContinuation
        } else {
            TokenType::NewlineLogical
        };
        self.simple(value, token_type)
    }

    /// The name at the cursor, if one starts there.  Its value is the name
    /// in normalization form KC.
    pub fn name(&self) -> (r: Option<Token>)
        requires
            self.wf(),
        ensures
            match r {
                Some(token) => starts_name(self.text(), self@.cursor) && token@ == token_of(
                    self.text(),
                    Lexeme {
                        kind: TokenType::Name,
                        start: self@.cursor,
                        end: name_end(self.text(), self@.cursor),
                    },
                ),
                None => !starts_name(self.text(), self@.cursor),
            },
    {
        let end = scan_name(&self.chars, self.cursor);
        if end > self.cursor {
            Some(self.make_token(TokenType::Name, end))
        } else {
            None
        }
    }

    /// The numeric literal at the cursor, if one starts there.
    pub fn number(&self) -> (r: Option<Token>)
        requires
            self.wf(),
        ensures
            match r {
                Some(token) => starts_number(self.text(), self@.cursor) && token@ == token_of(
                    self.text(),
                    Lexeme {
                        kind: TokenType::Number,
                        start: self@.cursor,
                        end: number_end(self.text(), self@.cursor),
                    },
                ),
                None => !starts_number(self.text(), self@.cursor),
            },
    {
        let end = scan_number(&self.chars, self.cursor);
        if end > self.cursor {
            Some(self.make_token(TokenType::Number, end))
        } else {
            None
        }
    }

    /// The string literal at the cursor, if one starts there.  A literal
    /// that is not closed is an error at the offset of its start.
    pub fn string(&self) -> (r: Result<Option<Token>, TokenError>)
        requires
            self.wf(),
        ensures
            match r {
                Ok(Some(token)) => string_end(self.text(), self@.cursor) matches Some(end)
                    && token@ == token_of(
                    self.text(),
                    Lexeme { kind: TokenType::String, start: self@.cursor, end },
                ),
                Ok(None) => !starts_string(self.text(), self@.cursor),
                Err(e) => starts_string(self.text(), self@.cursor) && string_end(
                    self.text(),
                    self@.cursor,
                ) is None && e == (TokenError::UnterminatedString {
                    position: byte_offset(self.text(), self@.cursor) as usize,
                }),
            },
    {
        match scan_string_prefix(&self.chars, self.cursor) {
            None => Ok(None),
            Some(_) => match scan_string(&self.chars, self.cursor) {
                Some(end) => Ok(Some(self.make_token(TokenType::String, end))),
                None => Err(TokenError::UnterminatedString { position: self.position }),
            },
        }
    }
}

/// The driver: the indentation tracker, the dispatch to the scanners, and
/// the production step.
impl<'a> Tokenizer<'a> {
    /// Decides what the logical line at the cursor does to the open blocks,
    /// changes the indentation stack accordingly, and returns the tokens of
    /// that decision in one batch: nothing, one indent, or one dedent for
    /// each block that the line closes.  The cursor does not move.
    fn indentation(&mut self) -> (r: Result<VecDeque<Token>, TokenError>)
        requires
            old(self).wf(),
        ensures
            final(self).source == old(self).source,
            final(self).chars == old(self).chars,
            final(self).cursor == old(self).cursor,
            final(self).position == old(self).position,
            final(self).parentheses_level == old(self).parentheses_level,
            final(self).previous_token_type == old(self).previous_token_type,
            final(self).token_buffer == old(self).token_buffer,
            final(self).finished == old(self).finished,
            match track_indentation(old(self).chars@, old(self).cursor as int, old(self)@.indents) {
                Err(e) => r == Err::<VecDeque<Token>, TokenError>(e),
                Ok(change) => r matches Ok(tokens) && final(self)@.indents == stack_after(
                    old(self).chars@,
                    old(self).cursor as int,
                    old(self)@.indents,
                    change,
                ) && match change {
                    IndentChange::Same => tokens@.len() == 0,
                    IndentChange::Indent => tokens@.len() == 1 && tokens@[0]@ == token_of(
                        old(self).chars@,
                        Lexeme {
                            kind: TokenType::Indent,
                            start: old(self).cursor as int,
                            end: whitespace_end(old(self).chars@, old(self).cursor as int),
                        },
                    ),
                    IndentChange::Dedent { levels } => tokens@.len() == levels && forall|k: int|
                        0 <= k < tokens@.len() ==> (#[trigger] tokens@[k])@ == token_of(
                            old(self).chars@,
                            dedent_at(old(self).cursor as int),
                        ),
                },
            },
    {
        let ghost stack = self@.indents;
        let ghost text = self.chars@;
        let end = skip_whitespace(&self.chars, self.cursor);
        let mut tokens: VecDeque<Token> = VecDeque::new();
        if at_blank_line(&self.chars, end) {
            return Ok(tokens);
        }
        let ghost w = text.subrange(self.cursor as int, end as int);
        let width = width_of(&self.chars, self.cursor, end);
        let depth = self.indentation_stack.len();
        let none: Vec<char> = Vec::new();
        let top = if depth == 0 {
            &none
        } else {
            &self.indentation_stack[depth - 1]
        };
        proof {
            assert(top@ =~= current_indentation(stack));
            assert(top@.subrange(0, top@.len() as int) =~= top@);
        }
        let top_width = width_of(top, 0, top.len());
        if width >= top_width {
            if !is_prefix(top, 0, top.len(), &self.chars, self.cursor, end) {
                return Err(TokenError::IndentationInconsistency { position: self.position });
            }
            if width == top_width {
                return Ok(tokens);
            }
            let token = self.make_token(TokenType::Indent, end);
            let block = crate::text::slice_of(&self.chars, self.cursor, end);
            self.indentation_stack.push(block);
            tokens.push_back(token);
            proof {
                assert(self@.indents =~= stack.push(w));
            }
            Ok(tokens)
        } else {
            if !is_prefix(&self.chars, self.cursor, end, top, 0, top.len()) {
                return Err(TokenError::IndentationInconsistency { position: self.position });
            }
            let mut kept = depth;
            proof {
                assert(stack.take(kept as int) =~= stack);
            }
            loop
                invariant
                    kept <= depth,
                    depth == self.indentation_stack.len(),
                    stack == stack_view(self.indentation_stack@),
                    levels_kept(stack.take(kept as int), width as nat) == levels_kept(
                        stack,
                        width as nat,
                    ),
                ensures
                    kept <= depth,
                    kept == levels_kept(stack, width as nat),
                    depth == self.indentation_stack.len(),
                    stack == stack_view(self.indentation_stack@),
                decreases kept,
            {
                if kept == 0 {
                    break ;
                }
                let level = &self.indentation_stack[kept - 1];
                proof {
                    assert(level@.subrange(0, level@.len() as int) =~= level@);
                    assert(stack.take(kept as int).last() == level@);
                    assert(stack.take(kept as int).drop_last() =~= stack.take(kept - 1));
                }
                if width_of(level, 0, level.len()) > width {
                    kept -= 1;
                } else {
                    break ;
                }
            }
            let kept_width = if kept == 0 {
                0
            } else {
                let level = &self.indentation_stack[kept - 1];
                proof {
                    assert(level@.subrange(0, level@.len() as int) =~= level@);
                    assert(current_indentation(stack.take(kept as int)) == level@);
                }
                width_of(level, 0, level.len())
            };
            proof {
                if kept == 0 {
                    assert(current_indentation(stack.take(0)) =~= Seq::<char>::empty());
                }
            }
            if kept_width != width {
                return Err(TokenError::IndentationMismatch { position: self.position });
            }
            let levels = depth - kept;
            let mut k: usize = 0;
            while k < levels
                invariant
                    k <= levels,
                    self.wf_source(),
                    self.chars@ == text,
                    tokens@.len() == k,
                    forall|j: int|
                        0 <= j < tokens@.len() ==> (#[trigger] tokens@[j])@ == token_of(
                            text,
                            dedent_at(self.cursor as int),
                        ),
                decreases levels - k,
            {
                let token = self.make_token(TokenType::Dedent, self.cursor);
                tokens.push_back(token);
                k += 1;
            }
            self.indentation_stack.truncate(kept);
            proof {
                assert(self@.indents =~= stack.take(stack.len() - levels));
            }
            Ok(tokens)
        }
    }

    /// Folds a produced token into the state: the cursor moves to index
    /// `end`, where the token ends, a bracket changes the bracket depth,
    /// and the kind of the token is recorded.
    fn update(&mut self, token: &Token, end: usize)
        requires
            old(self).wf_source(),
            old(self).cursor <= end <= old(self).chars.len(),
            token.end == byte_offset(old(self).chars@, end as int),
            -(old(self).cursor as int) <= old(self).parentheses_level <= old(self).cursor,
            token.token_type.depth_change() != 0 ==> old(self).cursor < end,
        ensures
            final(self).wf_source(),
            final(self).source == old(self).source,
            final(self).chars == old(self).chars,
            final(self).cursor == end,
            final(self).parentheses_level == old(self).parentheses_level
                + token.token_type.depth_change(),
            -(end as int) <= final(self).parentheses_level <= end,
            final(self).previous_token_type == Some(token.token_type),
            final(self).indentation_stack == old(self).indentation_stack,
            final(self).token_buffer == old(self).token_buffer,
            final(self).finished == old(self).finished,
    {
        self.cursor = end;
        self.position = token.end;
        match token.token_type {
            TokenType::LeftBrace | TokenType::LeftParenthesis | TokenType::LeftSquareBracket => {
                self.parentheses_level = self.parentheses_level + 1;
            },
            TokenType::RightBrace | TokenType::RightParenthesis | TokenType::RightSquareBracket => {
                self.parentheses_level = self.parentheses_level - 1;
            },
            _ => {},
        }
        self.previous_token_type = Some(token.token_type);
    }

    /// The kind of the lexeme that starts at the cursor, and the index at
    /// which it ends.
    fn read_lexeme(&self) -> (r: Result<(TokenType, usize), TokenError>)
        requires
            self.wf_source(),
            self.cursor < self.chars.len(),
        ensures
            match lexeme_at(self.chars@, self.cursor as int, self.parentheses_level as int) {
                Ok(lexeme) => r == Ok::<(TokenType, usize), TokenError>(
                    (lexeme.kind, lexeme.end as usize),
                ) && self.cursor < lexeme.end <= self.chars.len(),
                Err(e) => r == Err::<(TokenType, usize), TokenError>(e),
            },
    {
        let i = self.cursor;
        proof {
            lemma_lexeme_at(self.chars@, i as int, self.parentheses_level as int);
        }
        if self.chars[i] == '#' {
            return Ok((TokenType::Comment, scan_comment(&self.chars, i)));
        }
        let newline = scan_newline(&self.chars, i);
        if newline > 0 {
            let kind = if self.parentheses_level > 0 {
                TokenType::NewlineContinuation
            } else {
                TokenType::NewlineLogical
            };
            return Ok((kind, i + newline));
        }
        let number = scan_number(&self.chars, i);
        if number > i {
            return Ok((TokenType::Number, number));
        }
        if scan_string_prefix(&self.chars, i).is_some() {
            return match scan_string(&self.chars, i) {
                Some(end) => Ok((TokenType::String, end)),
                None => Err(TokenError::UnterminatedString { position: self.position }),
            };
        }
        let name = scan_name(&self.chars, i);
        if name > i {
            return Ok((TokenType::Name, name));
        }
        match find_simple(&self.chars, i) {
            Some(k) => {
                proof {
                    lemma_simple_match_bounds(self.chars@, i as int);
                }
                Ok((simple_entry(k).1, i + crate::simple::simple_length(k)))
            },
            None => Err(TokenError::InvalidCharacter { position: self.position }),
        }
    }

    /// A production step that scans: passes over whitespace and reads the
    /// next lexeme, or, at the end of the text, closes the open blocks and
    /// produces the end marker.
    fn scan(&mut self) -> (r: Result<Option<Token>, TokenError>)
        requires
            old(self).wf(),
            !old(self).finished,
            old(self).token_buffer@.len() == 0,
        ensures
            final(self).text() == old(self).text(),
            final(self).source == old(self).source,
            match crate::machine::scan(old(self).text(), old(self)@) {
                Err(e) => r == Err::<Option<Token>, TokenError>(e),
                Ok((lexeme, next)) => r matches Ok(Some(token)) && token@ == token_of(
                    old(self).text(),
                    lexeme,
                ) && final(self)@ == next && final(self).wf(),
            },
    {
        let ghost text = self.chars@;
        let ghost before = self@;
        proof {
            lemma_whitespace_end(text, self.cursor as int);
            crate::machine::lemma_scan(text, before);
            assert(before.pending =~= Seq::<Lexeme>::empty());
        }
        let i = skip_whitespace(&self.chars, self.cursor);
        proof {
            crate::text::lemma_whitespace_bytes(text, self.cursor as int, i as int);
            lemma_byte_offset_monotone(text, i as int, text.len() as int);
            lemma_byte_offset_ends(text);
        }
        self.position = self.position + (i - self.cursor);
        self.cursor = i;
        if i >= self.chars.len() {
            if self.parentheses_level != 0 {
                return Err(TokenError::UnbalancedBrackets { position: self.position });
            }
            let depth = self.indentation_stack.len();
            if depth > 0 {
                let token = self.make_token(TokenType::Dedent, i);
                let mut k: usize = 1;
                while k < depth
                    invariant
                        1 <= k <= depth,
                        self.wf_source(),
                        self.chars@ == text,
                        self.cursor == i,
                        self.token_buffer@.len() == k - 1,
                        forall|j: int|
                            0 <= j < self.token_buffer@.len() ==> (
                            #[trigger] self.token_buffer@[j])@ == token_of(
                                text,
                                dedent_at(i as int),
                            ),
                        self.source == old(self).source,
                        self.parentheses_level == old(self).parentheses_level,
                        self.finished == old(self).finished,
                        self.indentation_stack == old(self).indentation_stack,
                    decreases depth - k,
                {
                    let pending = self.make_token(TokenType::Dedent, i);
                    self.token_buffer.push_back(pending);
                    k += 1;
                }
                self.indentation_stack.clear();
                self.previous_token_type = Some(TokenType::Dedent);
                proof {
                    let produced = crate::machine::scan(text, before)->Ok_0;
                    let next = produced.1;
                    assert(self@.indents =~= next.indents);
                    assert(self@.pending =~= next.pending);
                }
                return Ok(Some(token));
            }
            let token = self.make_token(TokenType::EndMarker, i);
            self.previous_token_type = Some(TokenType::EndMarker);
            self.finished = true;
            proof {
                let produced = crate::machine::scan(text, before)->Ok_0;
                    let next = produced.1;
                assert(self@.indents =~= next.indents);
                assert(self@.pending =~= next.pending);
            }
            return Ok(Some(token));
        }
        match self.read_lexeme() {
            Err(e) => Err(e),
            Ok((kind, end)) => {
                let token = self.make_token(kind, end);
                proof {
                    assert(before.indents.len() <= i);
                }
                self.update(&token, end);
                proof {
                    let produced = crate::machine::scan(text, before)->Ok_0;
                    let next = produced.1;
                    assert(self@.indents =~= next.indents);
                    assert(self@.pending =~= next.pending);
                }
                Ok(Some(token))
            },
        }
    }

    /// Produces the next token.
    ///
    /// The result is `Ok(Some(..))` with the next token of the source,
    /// `Ok(None)` once the end marker has been produced, or the error that
    /// this step detects.  After an error the tokenizer is to be dropped.
    pub fn next(&mut self) -> (r: Result<Option<Token>, TokenError>)
        requires
            old(self).wf(),
        ensures
            final(self).text() == old(self).text(),
            match step(old(self).text(), old(self)@) {
                Err(e) => r == Err::<Option<Token>, TokenError>(e),
                Ok(None) => r == Ok::<Option<Token>, TokenError>(None) && final(self)@ == old(
                    self,
                )@ && final(self).wf(),
                Ok(Some((lexeme, next))) => r matches Ok(Some(token)) && token@ == token_of(
                    old(self).text(),
                    lexeme,
                ) && final(self)@ == next && final(self).wf(),
            },
    {
        let ghost text = self.chars@;
        let ghost before = self@;
        proof {
            lemma_step(text, before);
        }
        if self.finished {
            return Ok(None);
        }
        if self.token_buffer.len() > 0 {
            let token = self.token_buffer.pop_front();
            proof {
                assert(self@.pending =~= before.pending.drop_first());
                assert(before.pending[0] == dedent_at(self.cursor as int));
            }
            return Ok(token);
        }
        let at_line_start = match self.previous_token_type {
            None => true,
            Some(kind) => kind == TokenType::NewlineLogical,
        };
        if at_line_start {
            proof {
                lemma_whitespace_end(text, self.cursor as int);
                lemma_track_preserves_order(text, self.cursor as int, before.indents);
            }
            match self.indentation() {
                Err(e) => {
                    return Err(e);
                },
                Ok(mut batch) => {
                    match batch.pop_front() {
                        None => {},
                        Some(token) => {
                            let end = if token.token_type == TokenType::Indent {
                                skip_whitespace(&self.chars, self.cursor)
                            } else {
                                self.cursor
                            };
                            proof {
                                lemma_byte_offset_monotone(text, end as int, text.len() as int);
                            }
                            self.token_buffer = batch;
                            self.update(&token, end);
                            proof {
                                let produced = step(text, before)->Ok_0->0;
                                let next = produced.1;
                                assert(self@.indents =~= next.indents);
                                assert(self@.pending =~= next.pending);
                            }
                            return Ok(Some(token));
                        },
                    }
                },
            }
        }
        self.scan()
    }
}

/// All tokens of `source`, in order, up to and with the end marker; or the
/// first error.
pub fn tokenize(source: &str) -> (r: Result<Vec<Token>, TokenError>)
    ensures
        match lex(source@) {
            Ok(lexemes) => r matches Ok(tokens) && tokens@.len() == lexemes.len() && forall|k: int|
                0 <= k < tokens@.len() ==> (#[trigger] tokens@[k])@ == token_of(
                    source@,
                    lexemes[k],
                ),
            Err(e) => r == Err::<Vec<Token>, TokenError>(e),
        },
{
    let mut tokenizer = Tokenizer::new(source);
    let mut tokens: Vec<Token> = Vec::new();
    let ghost mut emitted: Seq<Lexeme> = Seq::empty();
    loop
        invariant
            tokenizer.wf(),
            tokenizer.text() == source@,
            views(tokens@) == tokens_of(source@, emitted),
            match run(source@, tokenizer@) {
                Ok(rest) => lex(source@) == Ok::<Seq<Lexeme>, TokenError>(emitted + rest),
                Err(e) => lex(source@) == Err::<Seq<Lexeme>, TokenError>(e),
            },
        decreases
                source@.len() - tokenizer@.cursor,
                unfinished(tokenizer@),
                line_start_rank(tokenizer@),
                tokenizer@.indents.len(),
                tokenizer@.pending.len(),
    {
        let ghost before = tokenizer@;
        proof {
            lemma_step(source@, before);
        }
        match tokenizer.next() {
            Err(e) => {
                return Err(e);
            },
            Ok(None) => {
                proof {
                    assert(emitted + Seq::<Lexeme>::empty() =~= emitted);
                    assert(views(tokens@).len() == tokens@.len());
                    assert(tokens_of(source@, emitted).len() == emitted.len());
                    assert forall|k: int| 0 <= k < tokens@.len() implies (#[trigger] tokens@[k])@
                        == token_of(source@, emitted[k]) by {
                        assert(views(tokens@)[k] == tokens@[k]@);
                        assert(tokens_of(source@, emitted)[k] == token_of(source@, emitted[k]));
                    }
                }
                return Ok(tokens);
            },
            Ok(Some(token)) => {
                proof {
                    let produced = step(source@, before)->Ok_0->0;
                    let lexeme = produced.0;
                    let ghost old_views = views(tokens@);
                    let ghost old_emitted = emitted;
                    emitted = emitted.push(lexeme);
                    let extended = views(tokens@.push(token));
                    assert(tokens_of(source@, old_emitted).len() == tokens@.len());
                    assert forall|k: int| 0 <= k < extended.len() implies extended[k] == tokens_of(
                        source@,
                        emitted,
                    )[k] by {
                        if k < tokens@.len() {
                            assert(old_views[k] == tokens_of(source@, old_emitted)[k]);
                        }
                    }
                    assert(extended =~= tokens_of(source@, emitted));
                    match run(source@, tokenizer@) {
                        Ok(rest) => {
                            assert(old_emitted + (seq![lexeme] + rest) =~= emitted + rest);
                        },
                        Err(_) => {},
                    }
                }
                tokens.push(token);
            },
        }
    }
}

} // verus!
