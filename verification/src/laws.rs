//! What holds of every tokenization: statements about [`step`] and
//! [`run`], proved from their definitions.

use vstd::prelude::*;
use crate::indentation::{lemma_track_preserves_order, widths_increase};
use crate::machine::{
    lemma_lexeme_at,
    lemma_step,
    lex,
    lexeme_text,
    line_start_rank,
    run,
    step,
    tokens_of,
    unfinished,
    Lexeme,
    State,
};
use crate::newline::{lemma_whitespace_end, whitespace_end};
use crate::text::{
    byte_len,
    is_whitespace_char,
    lemma_byte_len_subrange,
    lemma_byte_offset_ends,
    lemma_byte_offset_monotone,
};
use crate::token::TokenType;

verus! {

/// How many of the lexemes have the given kind.
pub open spec fn count_kind(lexemes: Seq<Lexeme>, kind: TokenType) -> nat
    decreases lexemes.len(),
{
    if lexemes.len() == 0 {
        0
    } else if lexemes[0].kind == kind {
        1 + count_kind(lexemes.drop_first(), kind)
    } else {
        count_kind(lexemes.drop_first(), kind)
    }
}

/// The texts of the lexemes, one after the other.
pub open spec fn concat_texts(s: Seq<char>, lexemes: Seq<Lexeme>) -> Seq<char>
    decreases lexemes.len(),
{
    if lexemes.len() == 0 {
        Seq::empty()
    } else {
        lexeme_text(s, lexemes[0]) + concat_texts(s, lexemes.drop_first())
    }
}

/// Where the last of the lexemes ends, or `from` if there is none.
pub open spec fn end_of(lexemes: Seq<Lexeme>, from: int) -> int
    decreases lexemes.len(),
{
    if lexemes.len() == 0 {
        from
    } else {
        end_of(lexemes.drop_first(), lexemes[0].end)
    }
}

/// Whether the lexemes lie in the text in order from index `from` on,
/// without overlap, with nothing but whitespace before each of them.
pub open spec fn tiles(s: Seq<char>, lexemes: Seq<Lexeme>, from: int) -> bool
    decreases lexemes.len(),
{
    lexemes.len() > 0 ==> {
        &&& 0 <= from <= lexemes[0].start <= lexemes[0].end <= s.len()
        &&& forall|k: int| from <= k < lexemes[0].start ==> is_whitespace_char(#[trigger] s[k])
        &&& tiles(s, lexemes.drop_first(), lexemes[0].end)
    }
}

/// Whether each lexeme starts where the one before it ends, the first of
/// them at index `from`: no whitespace was passed over.
pub open spec fn contiguous(lexemes: Seq<Lexeme>, from: int) -> bool
    decreases lexemes.len(),
{
    lexemes.len() > 0 ==> lexemes[0].start == from && contiguous(
        lexemes.drop_first(),
        lexemes[0].end,
    )
}

/// Indentation monotonicity.  A fresh tokenizer has an empty stack, and no
/// production step breaks the order of the stack: in every state that a
/// tokenizer reaches, the widths on the indentation stack increase
/// strictly from the bottom to the top.
pub proof fn lemma_indentation_monotonic(s: Seq<char>, st: State)
    requires
        st.inv(s),
    ensures
        State::initial().inv(s),
        widths_increase(State::initial().indents),
        widths_increase(st.indents),
        step(s, st) matches Ok(Some((_, next))) ==> next.inv(s) && widths_increase(next.indents),
{
    lemma_step(s, st);
}

/// Continuation transparency.  While a bracket is open, no production
/// step yields an indent, a dedent or a logical newline.
pub proof fn lemma_continuation_transparency(s: Seq<char>, st: State)
    requires
        st.inv(s),
        st.depth > 0,
    ensures
        step(s, st) matches Ok(Some((lexeme, _))) ==> !lexeme.kind.is_line_structure(),
{
    lemma_whitespace_end(s, st.cursor);
    let i = whitespace_end(s, st.cursor);
    if !st.finished && i < s.len() {
        lemma_lexeme_at(s, i, st.depth);
    }
}

/// Dedent balance, from any state on: the rest of a successful
/// tokenization closes every block that is open or opened later.  It
/// holds as many dedents as it holds indents, and one more for each block
/// that is open and each dedent that is pending.
pub proof fn lemma_run_balance(s: Seq<char>, st: State)
    requires
        st.inv(s),
        run(s, st) is Ok,
    ensures
        count_kind(run(s, st)->Ok_0, TokenType::Dedent) == count_kind(
            run(s, st)->Ok_0,
            TokenType::Indent,
        ) + st.indents.len() + st.pending.len(),
    decreases s.len() - st.cursor, unfinished(st), line_start_rank(st), st.indents.len(),
        st.pending.len(),
{
    lemma_step(s, st);
    match step(s, st) {
        Ok(Some((lexeme, next))) => {
            lemma_run_balance(s, next);
            let rest = run(s, next)->Ok_0;
            let all = seq![lexeme] + rest;
            assert(all.drop_first() =~= rest);
            assert(all[0] == lexeme);
            if st.pending.len() > 0 {
                assert(lexeme == st.pending[0]);
            } else {
                lemma_whitespace_end(s, st.cursor);
                lemma_track_preserves_order(s, st.cursor, st.indents);
                let i = whitespace_end(s, st.cursor);
                if i < s.len() {
                    lemma_lexeme_at(s, i, st.depth);
                }
            }
            assert(count_kind(all, TokenType::Dedent) == count_kind(rest, TokenType::Dedent) + (
            if lexeme.kind == TokenType::Dedent {
                1nat
            } else {
                0nat
            }));
            assert(count_kind(all, TokenType::Indent) == count_kind(rest, TokenType::Indent) + (
            if lexeme.kind == TokenType::Indent {
                1nat
            } else {
                0nat
            }));
        },
        Ok(None) => {
            assert(run(s, st)->Ok_0 =~= Seq::<Lexeme>::empty());
        },
        _ => {},
    }
}

/// Dedent balance.  Over a whole successful tokenization the number of
/// indents minus the number of dedents is the depth of the indentation
/// stack at the end, which is 0: every block that was opened is closed
/// before the end marker.
pub proof fn lemma_dedent_balance(s: Seq<char>)
    requires
        lex(s) is Ok,
    ensures
        count_kind(lex(s)->Ok_0, TokenType::Indent) == count_kind(lex(s)->Ok_0, TokenType::Dedent),
{
    lemma_run_balance(s, State::initial());
}

/// From any state on, the lexemes of a successful tokenization lie in the
/// text in order, with nothing but whitespace between them.  Unless the
/// end marker was produced before, it comes last, once, at the end of the
/// text.
pub proof fn lemma_run_tiles(s: Seq<char>, st: State)
    requires
        st.inv(s),
        run(s, st) is Ok,
    ensures
        tiles(s, run(s, st)->Ok_0, st.cursor),
        st.cursor <= end_of(run(s, st)->Ok_0, st.cursor) <= s.len(),
        !st.finished ==> {
            &&& run(s, st)->Ok_0.len() > 0
            &&& run(s, st)->Ok_0.last().kind == TokenType::EndMarker
            &&& end_of(run(s, st)->Ok_0, st.cursor) == s.len()
            &&& count_kind(run(s, st)->Ok_0, TokenType::EndMarker) == 1
        },
    decreases s.len() - st.cursor, unfinished(st), line_start_rank(st), st.indents.len(),
        st.pending.len(),
{
    lemma_step(s, st);
    match step(s, st) {
        Ok(Some((lexeme, next))) => {
            lemma_run_tiles(s, next);
            let rest = run(s, next)->Ok_0;
            let all = seq![lexeme] + rest;
            assert(all.drop_first() =~= rest);
            assert(all[0] == lexeme);
            if rest.len() > 0 {
                assert(all.last() == rest.last());
            }
            assert(count_kind(all, TokenType::EndMarker) == count_kind(rest, TokenType::EndMarker)
                + (if lexeme.kind == TokenType::EndMarker {
                1nat
            } else {
                0nat
            }));
            assert(end_of(all, st.cursor) == end_of(rest, lexeme.end));
            if next.finished {
                assert(rest =~= Seq::<Lexeme>::empty());
                lemma_whitespace_end(s, st.cursor);
                assert(lexeme.kind == TokenType::EndMarker);
                assert(all.last() == lexeme);
            } else {
                if st.pending.len() > 0 {
                    assert(lexeme == st.pending[0]);
                } else {
                    lemma_whitespace_end(s, st.cursor);
                    let i = whitespace_end(s, st.cursor);
                    if i < s.len() {
                        lemma_lexeme_at(s, i, st.depth);
                    }
                }
            }
        },
        _ => {},
    }
}

/// The texts of lexemes that tile a text without gaps make up the text
/// that they span.
pub proof fn lemma_contiguous_texts(s: Seq<char>, lexemes: Seq<Lexeme>, from: int)
    requires
        tiles(s, lexemes, from),
        contiguous(lexemes, from),
        0 <= from <= s.len(),
    ensures
        from <= end_of(lexemes, from) <= s.len(),
        concat_texts(s, lexemes) == s.subrange(from, end_of(lexemes, from)),
    decreases lexemes.len(),
{
    if lexemes.len() == 0 {
        assert(s.subrange(from, from) =~= Seq::<char>::empty());
    } else {
        let first = lexemes[0];
        lemma_contiguous_texts(s, lexemes.drop_first(), first.end);
        let end = end_of(lexemes, from);
        assert(s.subrange(from, first.end) + s.subrange(first.end, end) =~= s.subrange(from, end));
    }
}

/// The lexemes of a successful tokenization lie in the source in order,
/// without overlap, and only whitespace stands between them.  The last of
/// them is the end marker, at the end of the source, and there is no
/// other end marker.
pub proof fn lemma_tokens_cover_source(s: Seq<char>)
    requires
        lex(s) is Ok,
    ensures
        tiles(s, lex(s)->Ok_0, 0),
        lex(s)->Ok_0.len() > 0,
        lex(s)->Ok_0.last().kind == TokenType::EndMarker,
        count_kind(lex(s)->Ok_0, TokenType::EndMarker) == 1,
        end_of(lex(s)->Ok_0, 0) == s.len(),
{
    lemma_run_tiles(s, State::initial());
}

/// Round trip.  Where a successful tokenization passed over no whitespace
/// between tokens, the texts of its tokens, one after the other, are the
/// source.
pub proof fn lemma_round_trip(s: Seq<char>)
    requires
        lex(s) is Ok,
        contiguous(lex(s)->Ok_0, 0),
    ensures
        concat_texts(s, lex(s)->Ok_0) == s,
{
    lemma_tokens_cover_source(s);
    lemma_contiguous_texts(s, lex(s)->Ok_0, 0);
    assert(s.subrange(0, s.len() as int) =~= s);
}

/// What tiling says of the lexeme with index `k`: it lies inside the text,
/// at or after index `from`, and the next lexeme starts at or after its
/// end, with only whitespace in between.
pub proof fn lemma_tiles_at(s: Seq<char>, lexemes: Seq<Lexeme>, from: int, k: int)
    requires
        tiles(s, lexemes, from),
        0 <= k < lexemes.len(),
    ensures
        0 <= from <= lexemes[k].start <= lexemes[k].end <= s.len(),
        k + 1 < lexemes.len() ==> lexemes[k].end <= lexemes[k + 1].start && forall|j: int|
            lexemes[k].end <= j < lexemes[k + 1].start ==> is_whitespace_char(#[trigger] s[j]),
    decreases k,
{
    let rest = lexemes.drop_first();
    if k == 0 {
        if lexemes.len() > 1 {
            assert(tiles(s, rest, lexemes[0].end));
            assert(rest[0] == lexemes[1]);
        }
    } else {
        lemma_tiles_at(s, rest, lexemes[0].end, k - 1);
        assert(rest[k - 1] == lexemes[k]);
        if k + 1 < lexemes.len() {
            assert(rest[k] == lexemes[k + 1]);
        }
    }
}

/// The byte spans of the tokens of a successful tokenization are in
/// order: each token ends at or after its start and inside the source, as
/// many bytes on as its text has, and the next token starts at or after
/// its end.
pub proof fn lemma_token_spans_in_order(s: Seq<char>, k: int)
    requires
        lex(s) is Ok,
        0 <= k < lex(s)->Ok_0.len(),
    ensures
        ({
            let lexemes = lex(s)->Ok_0;
            let tokens = tokens_of(s, lexemes);
            &&& tokens[k].start + byte_len(lexeme_text(s, lexemes[k])) == tokens[k].end
            &&& tokens[k].end <= byte_len(s)
            &&& k + 1 < lexemes.len() ==> tokens[k].end <= tokens[k + 1].start
        }),
{
    let lexemes = lex(s)->Ok_0;
    lemma_tokens_cover_source(s);
    lemma_tiles_at(s, lexemes, 0, k);
    lemma_byte_len_subrange(s, lexemes[k].start, lexemes[k].end);
    lemma_byte_offset_monotone(s, lexemes[k].end, s.len() as int);
    lemma_byte_offset_ends(s);
    if k + 1 < lexemes.len() {
        lemma_tiles_at(s, lexemes, 0, k + 1);
        lemma_byte_offset_monotone(s, lexemes[k].end, lexemes[k + 1].start);
    }
}

} // verus!
