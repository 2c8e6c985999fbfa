//! What holds of every scan, whatever the source text.

use crate::charclass::{char_kind, in_run, Run};
use crate::grammar::{
    lemma_run_end, line_at, number_end, payload_end, sign_end, step,
    token_start, Outcome, Step,
};
use crate::token::TokenView;
use vstd::prelude::*;

verus! {

/// The position of the scanner after one call of `next` at position `pos`.
pub open spec fn position_after_step(src: Seq<char>, pos: int) -> int {
    match step(src, pos) {
        Some(found) => found.end,
        None => src.len() as int,
    }
}

/// The position of the scanner after `calls` calls of `next`, the first of them at
/// position `pos`.
pub open spec fn position_after(src: Seq<char>, pos: int, calls: nat) -> int
    decreases calls,
{
    if calls == 0 {
        pos
    } else {
        position_after(src, position_after_step(src, pos), (calls - 1) as nat)
    }
}

/// The text that a token holds, for the tokens that hold any.
pub open spec fn held_text(tok: TokenView) -> Option<Seq<char>> {
    match tok {
        TokenView::Comment(text) => Some(text),
        TokenView::Float(text) => Some(text),
        TokenView::Integer(text) => Some(text),
        TokenView::Identifier(text) => Some(text),
        _ => None,
    }
}

/// White space, and nothing else, stands in `src` from `from` up to `to`.
pub open spec fn blank_between(src: Seq<char>, from: int, to: int) -> bool {
    forall|i: int| from <= i < to ==> char_kind(#[trigger] src[i]) is Space
}

/// The number at `start` ends after its sign and within the source, and holds at least
/// one character when a sign or a digit stands at `start`.
pub proof fn lemma_number_end(src: Seq<char>, start: int)
    requires
        0 <= start < src.len(),
    ensures
        start <= number_end(src, start) <= src.len(),
        char_kind(src[start]) is Minus || char_kind(src[start]) is Digit ==> start < number_end(
            src,
            start,
        ),
{
    let digits = sign_end(src, start);
    let body = payload_end(src, digits);
    lemma_run_end(src, body, Run::Number);
}

/// Every step takes at least one character and ends within the source. Only white space
/// stands before what it found. A token that holds text holds the very characters that
/// the step took for it, and an invalid character is taken alone.
pub proof fn lemma_step_accounts_for_text(src: Seq<char>, pos: int)
    requires
        0 <= pos <= src.len(),
    ensures
        match step(src, pos) {
            Some(found) => {
                &&& pos <= found.start < found.end <= src.len()
                &&& found.start == token_start(src, pos)
                &&& blank_between(src, pos, found.start)
                &&& !(char_kind(src[found.start]) is Space)
                &&& match found.outcome {
                    Outcome::Token(tok) => held_text(tok) matches Some(text) ==> text
                        == src.subrange(found.start, found.end),
                    Outcome::InvalidChar => found.end == found.start + 1,
                }
            },
            None => blank_between(src, pos, src.len() as int),
        },
{
    lemma_run_end(src, pos, Run::Blank);
    let start = token_start(src, pos);
    assert forall|i: int| pos <= i < start implies char_kind(#[trigger] src[i]) is Space by {
        assert(in_run(Run::Blank, src[i]));
    }
    if start < src.len() {
        assert(!in_run(Run::Blank, src[start]));
        reveal_strlit("->");
        lemma_number_end(src, start);
        lemma_run_end(src, start, Run::Line);
        lemma_run_end(src, start + 1, Run::Word);
    }
}

/// A call of `next` never moves the scanner back, nor beyond the end of the source.
pub proof fn lemma_position_after_step(src: Seq<char>, pos: int)
    requires
        0 <= pos <= src.len(),
    ensures
        pos <= position_after_step(src, pos) <= src.len(),
        step(src, pos) is Some ==> pos < position_after_step(src, pos),
        step(src, pos) is None ==> position_after_step(src, pos) == src.len(),
{
    lemma_step_accounts_for_text(src, pos);
}

/// At the end of the source there is nothing left to find.
pub proof fn lemma_step_at_end(src: Seq<char>)
    ensures
        step(src, src.len() as int) is None,
{
}

/// Each call of `next` that finds something leaves less of the source: after `calls`
/// calls the scanner has gone forward by at least `calls` characters, or else it stands
/// at the end of the source.
pub proof fn lemma_progress(src: Seq<char>, pos: int, calls: nat)
    requires
        0 <= pos <= src.len(),
    ensures
        pos <= position_after(src, pos, calls) <= src.len(),
        position_after(src, pos, calls) >= pos + calls || position_after(src, pos, calls)
            == src.len(),
    decreases calls,
{
    if calls > 0 {
        let mid = position_after_step(src, pos);
        lemma_position_after_step(src, pos);
        lemma_progress(src, mid, (calls - 1) as nat);
    }
}

/// Scanning ends, and by then all of the source has been consumed: when `next` has been
/// called once for each character that was left, it stands at the end of the source, and
/// the next call and every later one finds nothing.
pub proof fn lemma_scan_ends(src: Seq<char>, pos: int, calls: nat)
    requires
        0 <= pos <= src.len(),
        calls >= src.len() - pos,
    ensures
        position_after(src, pos, calls) == src.len(),
        step(src, position_after(src, pos, calls)) is None,
{
    lemma_progress(src, pos, calls);
    lemma_step_at_end(src);
}

/// A character that begins nothing is taken alone, as an error at its own place, and the
/// scan goes on behind it.
pub proof fn lemma_invalid_char_is_taken_alone(src: Seq<char>, pos: int)
    requires
        0 <= pos < src.len(),
        char_kind(src[pos]) is Other,
    ensures
        step(src, pos) == Some(Step { start: pos, end: pos + 1, outcome: Outcome::InvalidChar }),
        position_after_step(src, pos) == pos + 1,
{
    assert(!in_run(Run::Blank, src[pos]));
}

/// The line goes up by one behind each newline character, and behind no other.
pub proof fn lemma_line_at_next(src: Seq<char>, pos: int)
    requires
        0 <= pos < src.len(),
    ensures
        line_at(src, 0) == 1,
        line_at(src, pos + 1) == line_at(src, pos) + if src[pos] == '\n' {
            1nat
        } else {
            0nat
        },
{
}

/// A later position is on no earlier line.
pub proof fn lemma_line_at_monotone(src: Seq<char>, from: int, to: int)
    requires
        0 <= from <= to <= src.len(),
    ensures
        line_at(src, from) <= line_at(src, to),
    decreases to - from,
{
    if from < to {
        lemma_line_at_monotone(src, from, to - 1);
    }
}

/// Where no newline stands between two positions, they are on the same line.
pub proof fn lemma_same_line(src: Seq<char>, from: int, to: int)
    requires
        0 <= from <= to <= src.len(),
        forall|i: int| from <= i < to ==> #[trigger] src[i] != '\n',
    ensures
        line_at(src, from) == line_at(src, to),
    decreases to - from,
{
    if from < to {
        lemma_same_line(src, from, to - 1);
    }
}

} // verus!
