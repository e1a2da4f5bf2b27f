//! The tokenizer as a state machine over the characters of the source.
//!
//! This module is the mathematical description that the executable
//! tokenizer is verified against.  A [`State`] holds what one tokenizer
//! instance owns; [`step`] says which lexeme the next production step
//! yields and what the state becomes; [`run`] collects the lexemes up to
//! the end marker.

use vstd::prelude::*;
use crate::comment::{comment_end, lemma_comment_end};
use crate::indentation::{
    lemma_track_preserves_order,
    stack_after,
    track_indentation,
    widths_increase,
    IndentChange,
};
use crate::name::{lemma_name_end, name_end, starts_name};
use crate::newline::{lemma_whitespace_end, newline_kind, newline_len, whitespace_end};
use crate::number::{lemma_number_end, number_end, starts_number};
use crate::simple::{lemma_simple_match_bounds, simple_kind, simple_match, simple_text};
use crate::string_literal::{lemma_string_end, starts_string, string_end};
use crate::text::{byte_offset, is_whitespace_char};
use crate::token::{TokenError, TokenType, TokenView};
use crate::unicode::nfkc_form;

verus! {

/// A token as the state machine sees it: a kind and the characters of the
/// source that it spans, from index `start` up to index `end`.
pub struct Lexeme {
    pub kind: TokenType,
    pub start: int,
    pub end: int,
}

/// What a tokenizer owns between two production steps.
pub struct State {
    /// The index of the next character to read.
    pub cursor: int,
    /// Open brackets minus closed brackets.
    pub depth: int,
    /// The kind of the last token that a scanner or the indentation tracker
    /// produced, if any.
    pub previous: Option<TokenType>,
    /// The indentation of each open block, outermost first.
    pub indents: Seq<Seq<char>>,
    /// Tokens that are computed and not yet delivered.
    pub pending: Seq<Lexeme>,
    /// Whether the end marker has been produced.
    pub finished: bool,
}

impl State {
    /// The state of a fresh tokenizer.
    pub open spec fn initial() -> State {
        State {
            cursor: 0,
            depth: 0,
            previous: None,
            indents: Seq::empty(),
            pending: Seq::empty(),
            finished: false,
        }
    }

    /// Whether the next token begins a logical line: nothing has been
    /// produced yet, or the last token ended a logical line.
    pub open spec fn at_line_start(self) -> bool {
        self.previous is None || self.previous == Some(TokenType::NewlineLogical)
    }

    /// What holds of every state that a tokenizer of the source `s` can
    /// reach.
    pub open spec fn inv(self, s: Seq<char>) -> bool {
        &&& 0 <= self.cursor <= s.len()
        &&& widths_increase(self.indents)
        &&& self.indents.len() <= self.cursor
        &&& forall|k: int|
            0 <= k < self.pending.len() ==> #[trigger] self.pending[k] == dedent_at(self.cursor)
        &&& self.pending.len() > 0 ==> self.previous == Some(TokenType::Dedent)
        &&& (self.at_line_start() || self.pending.len() > 0) ==> self.depth <= 0
        &&& self.finished ==> self.pending.len() == 0 && self.indents.len() == 0
    }
}

/// The `Dedent` lexeme at index `at`.  It spans no characters.
pub open spec fn dedent_at(at: int) -> Lexeme {
    Lexeme { kind: TokenType::Dedent, start: at, end: at }
}

/// `n` `Dedent` lexemes at index `at`.
pub open spec fn dedents_at(at: int, n: nat) -> Seq<Lexeme> {
    Seq::new(n, |k: int| dedent_at(at))
}

/// The characters of `s` that the lexeme spans.
pub open spec fn lexeme_text(s: Seq<char>, lexeme: Lexeme) -> Seq<char> {
    s.subrange(lexeme.start, lexeme.end)
}

/// The value of the token for a lexeme: the text it spans, brought to
/// normalization form KC if it is a name.
pub open spec fn lexeme_value(s: Seq<char>, lexeme: Lexeme) -> Seq<char> {
    if lexeme.kind == TokenType::Name {
        nfkc_form(lexeme_text(s, lexeme))
    } else {
        lexeme_text(s, lexeme)
    }
}

/// The token for a lexeme of the source `s`: its kind, its value, and its
/// span in bytes.
pub open spec fn token_of(s: Seq<char>, lexeme: Lexeme) -> TokenView {
    TokenView {
        token_type: lexeme.kind,
        value: lexeme_value(s, lexeme),
        start: byte_offset(s, lexeme.start),
        end: byte_offset(s, lexeme.end),
    }
}

/// The tokens for a sequence of lexemes.
pub open spec fn tokens_of(s: Seq<char>, lexemes: Seq<Lexeme>) -> Seq<TokenView> {
    Seq::new(lexemes.len(), |k: int| token_of(s, lexemes[k]))
}

/// The lexeme that starts at index `i` of `s`, which is inside the text
/// and not whitespace, at the given bracket depth.
///
/// A `#` starts a comment and a line terminator is a newline.  Then come,
/// in this order, numbers, string literals (whose prefixes would else read
/// as names), names and fixed tokens.  A string literal that is not closed
/// and a character that starts none of these are errors.
pub open spec fn lexeme_at(s: Seq<char>, i: int, depth: int) -> Result<Lexeme, TokenError> {
    if s[i] == '#' {
        Ok(Lexeme { kind: TokenType::Comment, start: i, end: comment_end(s, i) })
    } else if newline_len(s, i) > 0 {
        Ok(Lexeme { kind: newline_kind(depth), start: i, end: i + newline_len(s, i) })
    } else if starts_number(s, i) {
        Ok(Lexeme { kind: TokenType::Number, start: i, end: number_end(s, i) })
    } else if starts_string(s, i) {
        match string_end(s, i) {
            Some(end) => Ok(Lexeme { kind: TokenType::String, start: i, end }),
            None => Err(TokenError::UnterminatedString { position: byte_offset(s, i) as usize }),
        }
    } else if starts_name(s, i) {
        Ok(Lexeme { kind: TokenType::Name, start: i, end: name_end(s, i) })
    } else {
        match simple_match(s, i) {
            Some(k) => Ok(
                Lexeme { kind: simple_kind(k), start: i, end: i + simple_text(k).len() },
            ),
            None => Err(TokenError::InvalidCharacter { position: byte_offset(s, i) as usize }),
        }
    }
}

/// A production step that scans: whitespace is passed over, and the next
/// lexeme is read.  At the end of the text, brackets must be balanced;
/// then every open block is closed, and last comes the end marker.
pub open spec fn scan(s: Seq<char>, st: State) -> Result<(Lexeme, State), TokenError> {
    let i = whitespace_end(s, st.cursor);
    if i >= s.len() {
        if st.depth != 0 {
            Err(TokenError::UnbalancedBrackets { position: byte_offset(s, i) as usize })
        } else if st.indents.len() > 0 {
            Ok(
                (
                    dedent_at(i),
                    State {
                        cursor: i,
                        previous: Some(TokenType::Dedent),
                        indents: Seq::empty(),
                        pending: dedents_at(i, (st.indents.len() - 1) as nat),
                        ..st
                    },
                ),
            )
        } else {
            Ok(
                (
                    Lexeme { kind: TokenType::EndMarker, start: i, end: i },
                    State {
                        cursor: i,
                        previous: Some(TokenType::EndMarker),
                        finished: true,
                        ..st
                    },
                ),
            )
        }
    } else {
        match lexeme_at(s, i, st.depth) {
            Err(e) => Err(e),
            Ok(lexeme) => Ok(
                (
                    lexeme,
                    State {
                        cursor: lexeme.end,
                        depth: st.depth + lexeme.kind.depth_change(),
                        previous: Some(lexeme.kind),
                        ..st
                    },
                ),
            ),
        }
    }
}

/// A production step at the start of a logical line: the indentation
/// tracker decides.  An `Indent` spans the leading whitespace.  The first
/// `Dedent` is produced at once and the others are kept pending; none of
/// them spans a character.  Where the indentation does not change, the
/// step scans.
pub open spec fn begin_line(s: Seq<char>, st: State) -> Result<(Lexeme, State), TokenError> {
    match track_indentation(s, st.cursor, st.indents) {
        Err(e) => Err(e),
        Ok(IndentChange::Same) => scan(s, st),
        Ok(IndentChange::Indent) => {
            let end = whitespace_end(s, st.cursor);
            Ok(
                (
                    Lexeme { kind: TokenType::Indent, start: st.cursor, end },
                    State {
                        cursor: end,
                        previous: Some(TokenType::Indent),
                        indents: stack_after(s, st.cursor, st.indents, IndentChange::Indent),
                        ..st
                    },
                ),
            )
        },
        Ok(IndentChange::Dedent { levels }) => Ok(
            (
                dedent_at(st.cursor),
                State {
                    previous: Some(TokenType::Dedent),
                    indents: stack_after(
                        s,
                        st.cursor,
                        st.indents,
                        IndentChange::Dedent { levels },
                    ),
                    pending: dedents_at(st.cursor, (levels - 1) as nat),
                    ..st
                },
            ),
        ),
    }
}

/// One production step: the lexeme that it yields and the state after it,
/// `None` once the end marker has been produced, or the error that it
/// detects.
///
/// A pending token is delivered first, and nothing else changes.  At the
/// start of a logical line the indentation tracker decides; otherwise the
/// step scans.
pub open spec fn step(s: Seq<char>, st: State) -> Result<Option<(Lexeme, State)>, TokenError> {
    if st.finished {
        Ok(None)
    } else if st.pending.len() > 0 {
        Ok(Some((st.pending[0], State { pending: st.pending.drop_first(), ..st })))
    } else if st.at_line_start() {
        match begin_line(s, st) {
            Err(e) => Err(e),
            Ok(next) => Ok(Some(next)),
        }
    } else {
        match scan(s, st) {
            Err(e) => Err(e),
            Ok(next) => Ok(Some(next)),
        }
    }
}

/// 1 until the end marker has been produced, then 0.
pub open spec fn unfinished(st: State) -> nat {
    if st.finished {
        0
    } else {
        1
    }
}

/// 1 at the start of a logical line, else 0.
pub open spec fn line_start_rank(st: State) -> nat {
    if st.at_line_start() {
        1
    } else {
        0
    }
}

/// The lexemes that the tokenizer yields from the state `st` on, up to and
/// with the end marker, or the first error.
pub open spec fn run(s: Seq<char>, st: State) -> Result<Seq<Lexeme>, TokenError>
    decreases s.len() - st.cursor, unfinished(st), line_start_rank(st), st.indents.len(),
        st.pending.len(),
    when st.inv(s)
    via run_decreases
{
    match step(s, st) {
        Err(e) => Err(e),
        Ok(None) => Ok(Seq::empty()),
        Ok(Some((lexeme, next))) => match run(s, next) {
            Err(e) => Err(e),
            Ok(rest) => Ok(seq![lexeme] + rest),
        },
    }
}

#[via_fn]
proof fn run_decreases(s: Seq<char>, st: State) {
    lemma_step(s, st);
}

/// The lexemes of the source `s`, up to and with the end marker, or the
/// error that tokenizing `s` stops at.
pub open spec fn lex(s: Seq<char>) -> Result<Seq<Lexeme>, TokenError> {
    run(s, State::initial())
}

/// A fixed token is never an indent, a dedent, a logical newline or an
/// end marker.
pub proof fn lemma_simple_kind(k: int)
    ensures
        !simple_kind(k).is_line_structure(),
        simple_kind(k) != TokenType::EndMarker,
{
}

/// A scanned lexeme starts where it was looked for, is not empty, and ends
/// inside the text.  Inside brackets it is no logical newline.
pub proof fn lemma_lexeme_at(s: Seq<char>, i: int, depth: int)
    requires
        0 <= i < s.len(),
    ensures
        lexeme_at(s, i, depth) matches Ok(lexeme) ==> {
            &&& lexeme.start == i < lexeme.end <= s.len()
            &&& lexeme.kind != TokenType::Indent
            &&& lexeme.kind != TokenType::Dedent
            &&& lexeme.kind != TokenType::EndMarker
            &&& lexeme.kind == TokenType::NewlineLogical ==> depth <= 0
                && lexeme.kind.depth_change() == 0
        },
{
    if s[i] == '#' {
        lemma_comment_end(s, i);
        assert(newline_len(s, i) == 0);
        assert(comment_end(s, i) == comment_end(s, i + 1));
        lemma_comment_end(s, i + 1);
    } else if newline_len(s, i) > 0 {
    } else if starts_number(s, i) {
        lemma_number_end(s, i);
    } else if starts_string(s, i) {
        lemma_string_end(s, i);
    } else if starts_name(s, i) {
        lemma_name_end(s, i);
    } else {
        lemma_simple_match_bounds(s, i);
        if let Some(k) = simple_match(s, i) {
            lemma_simple_kind(k);
        }
    }
}

/// What every production step does.  From a valid state it leads to a
/// valid state.  The lexeme starts at or after the cursor, with only
/// whitespace in between, and ends where the cursor then stands.  And the
/// step makes progress: the tokenizer cannot go on forever.
pub proof fn lemma_step(s: Seq<char>, st: State)
    requires
        st.inv(s),
    ensures
        step(s, st) matches Ok(Some((lexeme, next))) ==> {
            &&& next.inv(s)
            &&& st.cursor <= lexeme.start <= lexeme.end == next.cursor
            &&& forall|k: int| st.cursor <= k < lexeme.start ==> is_whitespace_char(#[trigger] s[k])
            &&& decreases_to!(
                s.len() - st.cursor, unfinished(st), line_start_rank(st), st.indents.len(), st.pending.len()
                =>
                s.len() - next.cursor, unfinished(next), line_start_rank(next), next.indents.len(), next.pending.len()
            )
        },
{
    if st.finished {
    } else if st.pending.len() > 0 {
        let next = State { pending: st.pending.drop_first(), ..st };
        assert forall|k: int| 0 <= k < next.pending.len() implies #[trigger] next.pending[k]
            == dedent_at(next.cursor) by {
            assert(next.pending[k] == st.pending[k + 1]);
        }
        assert(st.pending[0] == dedent_at(st.cursor));
    } else {
        lemma_whitespace_end(s, st.cursor);
        if st.at_line_start() {
            lemma_track_preserves_order(s, st.cursor, st.indents);
            match track_indentation(s, st.cursor, st.indents) {
                Ok(IndentChange::Same) => {
                    lemma_scan(s, st);
                },
                _ => {},
            }
        } else {
            lemma_scan(s, st);
        }
    }
}

/// What [`lemma_step`] states, for a step that scans.
pub proof fn lemma_scan(s: Seq<char>, st: State)
    requires
        st.inv(s),
        !st.finished,
        st.pending.len() == 0,
    ensures
        scan(s, st) matches Ok((lexeme, next)) ==> {
            &&& next.inv(s)
            &&& st.cursor <= lexeme.start <= lexeme.end == next.cursor
            &&& forall|k: int| st.cursor <= k < lexeme.start ==> is_whitespace_char(#[trigger] s[k])
            &&& decreases_to!(
                s.len() - st.cursor, unfinished(st), line_start_rank(st), st.indents.len(), st.pending.len()
                =>
                s.len() - next.cursor, unfinished(next), line_start_rank(next), next.indents.len(), next.pending.len()
            )
        },
{
    lemma_whitespace_end(s, st.cursor);
    let i = whitespace_end(s, st.cursor);
    if i < s.len() {
        lemma_lexeme_at(s, i, st.depth);
    }
}

} // verus!
