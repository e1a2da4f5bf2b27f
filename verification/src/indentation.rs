//! Indentation: the width of leading whitespace, the stack of enclosing
//! blocks, and what the start of a logical line does to it.

use vstd::prelude::*;
use crate::newline::{newline_len, scan_newline, whitespace_end};
use crate::text::{byte_offset, TAB_SIZE};
use crate::token::TokenError;

verus! {

/// The column after the character `c`, read at column `column`: a space
/// takes one column, a tab goes to the next tab stop, and every other
/// character, the form feed among them, takes none.
pub open spec fn advance_column(column: nat, c: char) -> nat {
    if c == ' ' {
        column + 1
    } else if c == '\t' {
        (column / (TAB_SIZE as nat) + 1) * (TAB_SIZE as nat)
    } else {
        column
    }
}

/// The indentation width of the whitespace `w`: the column reached after
/// reading it from column 0, left to right.
pub open spec fn indentation_width(w: Seq<char>) -> nat
    decreases w.len(),
{
    if w.len() == 0 {
        0
    } else {
        advance_column(indentation_width(w.drop_last()), w.last())
    }
}

/// Whether the line whose first character after its leading whitespace has
/// index `e` is blank: nothing follows on it, or only a comment.
pub open spec fn is_blank_line(s: Seq<char>, e: int) -> bool {
    e >= s.len() || s[e] == '#' || newline_len(s, e) > 0
}

/// The indentation of the innermost open block: the top of the stack, or
/// the empty text where no block is open.
pub open spec fn current_indentation(stack: Seq<Seq<char>>) -> Seq<char> {
    if stack.len() == 0 {
        Seq::empty()
    } else {
        stack.last()
    }
}

/// How many levels of the stack stay open on a line of the given width:
/// levels are closed from the top while they are wider than the line.
pub open spec fn levels_kept(stack: Seq<Seq<char>>, width: nat) -> nat
    decreases stack.len(),
{
    if stack.len() > 0 && indentation_width(stack.last()) > width {
        levels_kept(stack.drop_last(), width)
    } else {
        stack.len()
    }
}

/// The stack invariant: every level is indented, and each level is
/// strictly wider than the one below it.
pub open spec fn widths_increase(stack: Seq<Seq<char>>) -> bool {
    &&& forall|k: int| 0 <= k < stack.len() ==> indentation_width(#[trigger] stack[k]) > 0
    &&& forall|a: int, b: int|
        0 <= a < b < stack.len() ==> indentation_width(#[trigger] stack[a]) < indentation_width(
            #[trigger] stack[b],
        )
}

/// What the start of a logical line does to the open blocks.
pub enum IndentChange {
    /// The line belongs to the innermost open block, or is blank.
    Same,
    /// The line opens a block, indented by its leading whitespace.
    Indent,
    /// The line closes this many blocks.
    Dedent { levels: nat },
}

/// What the logical line that starts at index `i` of `s` does to the
/// blocks in `stack`.
///
/// A blank line changes nothing.  Otherwise the width of the leading
/// whitespace is held against that of the innermost block.  At equal or
/// greater width the whitespace must begin with the block's indentation;
/// at greater width the line opens one block.  At lesser width the block's
/// indentation must begin with the whitespace; blocks wider than the line
/// are closed, and the innermost one left must be exactly as wide as the
/// line.
pub open spec fn track_indentation(s: Seq<char>, i: int, stack: Seq<Seq<char>>) -> Result<
    IndentChange,
    TokenError,
> {
    let e = whitespace_end(s, i);
    let w = s.subrange(i, e);
    let top = current_indentation(stack);
    let position = byte_offset(s, i) as usize;
    if is_blank_line(s, e) {
        Ok(IndentChange::Same)
    } else if indentation_width(w) >= indentation_width(top) {
        if !top.is_prefix_of(w) {
            Err(TokenError::IndentationInconsistency { position })
        } else if indentation_width(w) == indentation_width(top) {
            Ok(IndentChange::Same)
        } else {
            Ok(IndentChange::Indent)
        }
    } else if !w.is_prefix_of(top) {
        Err(TokenError::IndentationInconsistency { position })
    } else {
        let kept = levels_kept(stack, indentation_width(w));
        if indentation_width(current_indentation(stack.take(kept as int))) == indentation_width(
            w,
        ) {
            Ok(IndentChange::Dedent { levels: (stack.len() - kept) as nat })
        } else {
            Err(TokenError::IndentationMismatch { position })
        }
    }
}

/// The stack after the change that [`track_indentation`] found for the
/// line that starts at index `i`.
pub open spec fn stack_after(
    s: Seq<char>,
    i: int,
    stack: Seq<Seq<char>>,
    change: IndentChange,
) -> Seq<Seq<char>> {
    match change {
        IndentChange::Same => stack,
        IndentChange::Indent => stack.push(s.subrange(i, whitespace_end(s, i))),
        IndentChange::Dedent { levels } => stack.take(stack.len() - levels),
    }
}

/// The width of a text is at most eight columns for each character.
pub proof fn lemma_width_bound(w: Seq<char>)
    ensures
        indentation_width(w) <= 8 * w.len(),
    decreases w.len(),
{
    if w.len() > 0 {
        lemma_width_bound(w.drop_last());
        let column = indentation_width(w.drop_last());
        assert((column / 8 + 1) * 8 <= column + 8) by (nonlinear_arith);
    }
}

/// The width of a text grows along its prefixes.
pub proof fn lemma_width_step(w: Seq<char>, k: int)
    requires
        0 <= k < w.len(),
    ensures
        indentation_width(w.take(k + 1)) == advance_column(indentation_width(w.take(k)), w[k]),
{
    assert(w.take(k + 1).drop_last() =~= w.take(k));
}

/// Closing levels leaves a prefix of the stack whose top is no wider than
/// the line, with every closed level wider than the line.
pub proof fn lemma_levels_kept(stack: Seq<Seq<char>>, width: nat)
    ensures
        levels_kept(stack, width) <= stack.len(),
        levels_kept(stack, width) > 0 ==> indentation_width(
            stack[levels_kept(stack, width) - 1],
        ) <= width,
        forall|k: int|
            levels_kept(stack, width) <= k < stack.len() ==> indentation_width(
                #[trigger] stack[k],
            ) > width,
    decreases stack.len(),
{
    if stack.len() > 0 && indentation_width(stack.last()) > width {
        let below = stack.drop_last();
        lemma_levels_kept(below, width);
        assert forall|k: int| levels_kept(stack, width) <= k < stack.len() implies indentation_width(
            #[trigger] stack[k],
        ) > width by {
            if k < below.len() {
                assert(below[k] == stack[k]);
            }
        }
    }
}

/// Indentation monotonicity: whatever a line does to the stack, the
/// widths on the stack stay strictly increasing from the bottom to the
/// top.  A line that opens a block is not empty, and a line that closes
/// blocks closes at least one and no more than are open.
pub proof fn lemma_track_preserves_order(s: Seq<char>, i: int, stack: Seq<Seq<char>>)
    requires
        0 <= i <= s.len(),
        widths_increase(stack),
    ensures
        track_indentation(s, i, stack) matches Ok(change) ==> {
            &&& widths_increase(stack_after(s, i, stack, change))
            &&& change == IndentChange::Indent ==> i < whitespace_end(s, i)
            &&& change matches IndentChange::Dedent { levels } ==> 1 <= levels <= stack.len()
        },
{
    crate::newline::lemma_whitespace_end(s, i);
    let e = whitespace_end(s, i);
    let w = s.subrange(i, e);
    match track_indentation(s, i, stack) {
        Ok(IndentChange::Indent) => {
            let after = stack.push(w);
            assert(indentation_width(Seq::<char>::empty()) == 0);
            assert forall|a: int, b: int| 0 <= a < b < after.len() implies indentation_width(
                #[trigger] after[a],
            ) < indentation_width(#[trigger] after[b]) by {
                if b == stack.len() && stack.len() > 0 {
                    assert(a == stack.len() - 1 || indentation_width(stack[a]) < indentation_width(
                        stack[stack.len() - 1],
                    ));
                }
            }
            if i == e {
                assert(w =~= Seq::<char>::empty());
            }
        },
        Ok(IndentChange::Dedent { levels }) => {
            lemma_levels_kept(stack, indentation_width(w));
            let kept = levels_kept(stack, indentation_width(w));
            assert(kept < stack.len());
            assert(levels == stack.len() - kept);
            let after = stack.take(kept as int);
            assert(stack_after(s, i, stack, IndentChange::Dedent { levels }) == after);
            assert forall|k: int| 0 <= k < after.len() implies indentation_width(
                #[trigger] after[k],
            ) > 0 by {
                assert(after[k] == stack[k]);
            }
            assert forall|a: int, b: int| 0 <= a < b < after.len() implies indentation_width(
                #[trigger] after[a],
            ) < indentation_width(#[trigger] after[b]) by {
                assert(after[a] == stack[a] && after[b] == stack[b]);
            }
        },
        _ => {},
    }
}

/// The indentation width of the characters of `text` from index `from` up
/// to `to`.
pub fn width_of(text: &Vec<char>, from: usize, to: usize) -> (width: u128)
    requires
        from <= to <= text.len(),
    ensures
        width == indentation_width(text@.subrange(from as int, to as int)),
{
    let ghost w = text@.subrange(from as int, to as int);
    let mut width: u128 = 0;
    let mut i = from;
    proof {
        assert(w.take(0) =~= Seq::<char>::empty());
    }
    while i < to
        invariant
            from <= i <= to <= text.len(),
            w == text@.subrange(from as int, to as int),
            width == indentation_width(w.take(i - from)),
        decreases to - i,
    {
        proof {
            lemma_width_step(w, i - from);
            lemma_width_bound(w.take(i - from));
        }
        let c = text[i];
        if c == ' ' {
            width = width + 1;
        } else if c == '\t' {
            width = (width / 8 + 1) * 8;
        }
        i += 1;
    }
    proof {
        assert(w.take(to - from) =~= w);
    }
    width
}

/// Whether the characters of `a` from `a_from` up to `a_to` are a prefix
/// of those of `b` from `b_from` up to `b_to`.
pub fn is_prefix(
    a: &Vec<char>,
    a_from: usize,
    a_to: usize,
    b: &Vec<char>,
    b_from: usize,
    b_to: usize,
) -> (r: bool)
    requires
        a_from <= a_to <= a.len(),
        b_from <= b_to <= b.len(),
    ensures
        r == a@.subrange(a_from as int, a_to as int).is_prefix_of(
            b@.subrange(b_from as int, b_to as int),
        ),
{
    let ghost x = a@.subrange(a_from as int, a_to as int);
    let ghost y = b@.subrange(b_from as int, b_to as int);
    if a_to - a_from > b_to - b_from {
        return false;
    }
    let n = a_to - a_from;
    let mut k: usize = 0;
    while k < n
        invariant
            a_from <= a_to <= a.len(),
            b_from <= b_to <= b.len(),
            n == a_to - a_from,
            n <= b_to - b_from,
            k <= n,
            x == a@.subrange(a_from as int, a_to as int),
            y == b@.subrange(b_from as int, b_to as int),
            forall|j: int| 0 <= j < k ==> x[j] == y[j],
        decreases n - k,
    {
        if a[a_from + k] != b[b_from + k] {
            proof {
                assert(x[k as int] != y.subrange(0, x.len() as int)[k as int]);
            }
            return false;
        }
        k += 1;
    }
    proof {
        assert(x =~= y.subrange(0, x.len() as int));
    }
    true
}

/// Whether the line whose leading whitespace ends at `end` is blank.
pub fn at_blank_line(src: &Vec<char>, end: usize) -> (r: bool)
    requires
        end <= src.len(),
    ensures
        r == is_blank_line(src@, end as int),
{
    end >= src.len() || src[end] == '#' || scan_newline(src, end) > 0
}

} // verus!
