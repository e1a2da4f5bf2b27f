//! Tokens, their kinds, and the errors that tokenizing can report.

use vstd::prelude::*;

verus! {

/// The kind of a token.
#[derive(Clone, Copy, Debug, PartialEq, Eq, Structural)]
pub enum TokenType {
    Ampersand,
    AmpersandEqual,
    At,
    AtEqual,
    Circumflex,
    CircumflexEqual,
    Colon,
    Comma,
    Comment,
    Dedent,
    Dot,
    DoubleEqual,
    DoubleSlash,
    DoubleSlashEqual,
    DoubleStar,
    DoubleStarEqual,
    Ellipsis,
    Encoding,
    EndMarker,
    Equal,
    ErrorToken,
    Greater,
    GreaterEqual,
    Indent,
    LeftSquareBracket,
    LeftBrace,
    LeftParenthesis,
    LeftShift,
    LeftShiftEqual,
    Less,
    LessEqual,
    MinusEqual,
    Minus,
    Name,
    NewlineContinuation,
    NewlineLogical,
    NotEqual,
    Number,
    Operator,
    Percent,
    PercentEqual,
    Plus,
    PlusEqual,
    RightArrow,
    RightBrace,
    RightParenthesis,
    RightSquareBracket,
    RightShift,
    RightShiftEqual,
    Semicolon,
    Slash,
    SlashEqual,
    Star,
    StarEqual,
    String,
    Tilde,
    VerticalBar,
    VerticalBarEqual,
}

impl TokenType {
    /// True for `(`, `[` and `{`.
    pub open spec fn opens_bracket(self) -> bool {
        self == TokenType::LeftParenthesis || self == TokenType::LeftSquareBracket || self
            == TokenType::LeftBrace
    }

    /// True for `)`, `]` and `}`.
    pub open spec fn closes_bracket(self) -> bool {
        self == TokenType::RightParenthesis || self == TokenType::RightSquareBracket || self
            == TokenType::RightBrace
    }

    /// How a token of this kind changes the bracket depth: `+1`, `-1` or `0`.
    pub open spec fn depth_change(self) -> int {
        if self.opens_bracket() {
            1
        } else if self.closes_bracket() {
            -1
        } else {
            0
        }
    }

    /// True for the kinds that only the indentation tracker and the newline
    /// classifier produce at the boundary of a logical line.
    pub open spec fn is_line_structure(self) -> bool {
        self == TokenType::Indent || self == TokenType::Dedent || self == TokenType::NewlineLogical
    }
}

/// A token: its kind, its value, and the bytes of the source that it spans.
///
/// `value` is the matched text, except for a `Name`, whose value is the
/// matched text in normalization form KC.  `start` and `end` are byte
/// offsets into the source; `Dedent` and `EndMarker` span no bytes.
#[derive(Debug, PartialEq, Eq)]
pub struct Token {
    pub token_type: TokenType,
    pub value: String,
    pub start: usize,
    pub end: usize,
}

/// The mathematical content of a [`Token`].
pub struct TokenView {
    pub token_type: TokenType,
    pub value: Seq<char>,
    pub start: nat,
    pub end: nat,
}

impl View for Token {
    type V = TokenView;

    open spec fn view(&self) -> TokenView {
        TokenView {
            token_type: self.token_type,
            value: self.value@,
            start: self.start as nat,
            end: self.end as nat,
        }
    }
}

/// Why tokenizing stopped.  Each error carries the byte offset it refers to.
#[derive(Clone, Copy, Debug, PartialEq, Eq, Structural)]
pub enum TokenError {
    /// No scanner accepts the character at `position`.
    InvalidCharacter { position: usize },
    /// The indentation of the line that starts at `position` mixes tabs and
    /// spaces in a way that is not a literal extension of the enclosing block.
    IndentationInconsistency { position: usize },
    /// The line that starts at `position` dedents to a width that no
    /// enclosing block has.
    IndentationMismatch { position: usize },
    /// The string literal that starts at `position` is not closed.
    UnterminatedString { position: usize },
    /// The source ends at `position` with unbalanced brackets.
    UnbalancedBrackets { position: usize },
}

impl TokenError {
    /// The byte offset that the error refers to.
    pub open spec fn spec_position(self) -> usize {
        match self {
            TokenError::InvalidCharacter { position } => position,
            TokenError::IndentationInconsistency { position } => position,
            TokenError::IndentationMismatch { position } => position,
            TokenError::UnterminatedString { position } => position,
            TokenError::UnbalancedBrackets { position } => position,
        }
    }

    /// The byte offset that the error refers to.
    #[verifier::when_used_as_spec(spec_position)]
    pub fn position(self) -> (p: usize)
        ensures
            p == self.spec_position(),
    {
        match self {
            TokenError::InvalidCharacter { position } => position,
            TokenError::IndentationInconsistency { position } => position,
            TokenError::IndentationMismatch { position } => position,
            TokenError::UnterminatedString { position } => position,
            TokenError::UnbalancedBrackets { position } => position,
        }
    }
}

} // verus!
