//! What the scanner recognises, stated over the characters of the source.
//!
//! Nothing here runs. These functions say, for a source text and a position in it, where
//! the next token begins, where it ends and what it is. The scanner is proved to do
//! exactly this.

use crate::charclass::{char_kind, in_run, CharKind, Run};
use crate::entities::{Ebb, Value};
use crate::names::split_entity;
use crate::token::TokenView;
use crate::types::{LaneType, Type};
use vstd::prelude::*;

verus! {

/// Where the run of `run` characters that begins at `from` ends: the position of the
/// first character at or after `from` that does not continue the run, or the end of the
/// source.
pub open spec fn run_end(src: Seq<char>, from: int, run: Run) -> int
    decreases src.len() - from,
{
    if 0 <= from < src.len() && in_run(run, src[from]) {
        run_end(src, from + 1, run)
    } else {
        from
    }
}

/// Whether `pattern` stands in `src` at position `at`.
pub open spec fn starts_with_at(src: Seq<char>, at: int, pattern: Seq<char>) -> bool {
    0 <= at && at + pattern.len() <= src.len() && src.subrange(at, at + pattern.len())
        == pattern
}

/// The number of newline characters before position `pos`.
pub open spec fn newlines_before(src: Seq<char>, pos: int) -> nat
    decreases pos,
{
    if pos <= 0 || pos > src.len() {
        0
    } else if src[pos - 1] == '\n' {
        newlines_before(src, pos - 1) + 1
    } else {
        newlines_before(src, pos - 1)
    }
}

/// The line that position `pos` is on. Lines are counted from 1, and a newline character
/// is the last character of its line.
pub open spec fn line_at(src: Seq<char>, pos: int) -> nat {
    1 + newlines_before(src, pos)
}

/// The line that position `pos` is on, as a machine number: the largest one stands for
/// every line beyond it.
pub open spec fn line_number_at(src: Seq<char>, pos: int) -> usize {
    if line_at(src, pos) <= usize::MAX {
        line_at(src, pos) as usize
    } else {
        usize::MAX
    }
}

/// Where the rest of the line ends, seen from position `pos`: at the next newline, or at
/// the end of the source.
pub open spec fn rest_end(src: Seq<char>, pos: int) -> int {
    run_end(src, pos, Run::Line)
}

// Numbers

/// Where the digits of the number at `pos` begin: after its sign, if it has one.
pub open spec fn sign_end(src: Seq<char>, pos: int) -> int {
    if 0 <= pos < src.len() && src[pos] == '-' {
        pos + 1
    } else {
        pos
    }
}

/// Whether a NaN with a payload is announced at `at`.
pub open spec fn has_payload_at(src: Seq<char>, at: int) -> bool {
    starts_with_at(src, at, "NaN:"@) || starts_with_at(src, at, "sNaN:"@)
}

/// Where the announcement of a NaN payload at `at` ends: after its colon. Where none is
/// announced this is `at` itself.
pub open spec fn payload_end(src: Seq<char>, at: int) -> int {
    if starts_with_at(src, at, "NaN:"@) {
        at + "NaN:"@.len()
    } else if starts_with_at(src, at, "sNaN:"@) {
        at + "sNaN:"@.len()
    } else {
        at
    }
}

/// Whether one of the keywords `NaN` and `Inf` stands at `at`.
pub open spec fn has_keyword_at(src: Seq<char>, at: int) -> bool {
    starts_with_at(src, at, "NaN"@) || starts_with_at(src, at, "Inf"@)
}

/// Where the number that begins at `pos` ends.
pub open spec fn number_end(src: Seq<char>, pos: int) -> int {
    run_end(src, payload_end(src, sign_end(src, pos)), Run::Number)
}

/// Whether the number that begins at `pos` is a floating point number: it is a NaN or an
/// infinity, or a radix point stands among its digits.
pub open spec fn is_float_at(src: Seq<char>, pos: int) -> bool {
    let digits = sign_end(src, pos);
    let body = payload_end(src, digits);
    ||| has_payload_at(src, digits)
    ||| has_keyword_at(src, digits)
    ||| src.subrange(body, number_end(src, pos)).contains('.')
}

/// The number token that begins at `pos`. It holds the text of the number as written.
pub open spec fn number_at(src: Seq<char>, pos: int) -> TokenView {
    let text = src.subrange(pos, number_end(src, pos));
    if is_float_at(src, pos) {
        TokenView::Float(text)
    } else {
        TokenView::Integer(text)
    }
}

// Words

/// Where the word that begins at `pos` ends.
pub open spec fn word_end(src: Seq<char>, pos: int) -> int {
    run_end(src, pos + 1, Run::Word)
}

/// The token for a numbered entity: a known prefix, and a number that the kind of entity
/// admits.
pub open spec fn numbered_entity_of(prefix: Seq<char>, number: u32) -> Option<TokenView> {
    if prefix == "v"@ {
        match Value::spec_direct(number) {
            Some(value) => Some(TokenView::Value(value)),
            None => None,
        }
    } else if prefix == "vx"@ {
        match Value::spec_table(number) {
            Some(value) => Some(TokenView::Value(value)),
            None => None,
        }
    } else if prefix == "ebb"@ {
        match Ebb::spec_with_number(number) {
            Some(ebb) => Some(TokenView::Ebb(ebb)),
            None => None,
        }
    } else if prefix == "ss"@ {
        Some(TokenView::StackSlot(number))
    } else if prefix == "jt"@ {
        Some(TokenView::JumpTable(number))
    } else if prefix == "fn"@ {
        Some(TokenView::FuncRef(number))
    } else if prefix == "sig"@ {
        Some(TokenView::SigRef(number))
    } else {
        None
    }
}

/// The scalar type with the given name.
pub open spec fn lane_type_named(name: Seq<char>) -> Option<LaneType> {
    if name == "i8"@ {
        Some(LaneType::I8)
    } else if name == "i16"@ {
        Some(LaneType::I16)
    } else if name == "i32"@ {
        Some(LaneType::I32)
    } else if name == "i64"@ {
        Some(LaneType::I64)
    } else if name == "f32"@ {
        Some(LaneType::F32)
    } else if name == "f64"@ {
        Some(LaneType::F64)
    } else if name == "b1"@ {
        Some(LaneType::B1)
    } else if name == "b8"@ {
        Some(LaneType::B8)
    } else if name == "b16"@ {
        Some(LaneType::B16)
    } else if name == "b32"@ {
        Some(LaneType::B32)
    } else if name == "b64"@ {
        Some(LaneType::B64)
    } else {
        None
    }
}

/// The type that the word `text` names, where `text` splits into `prefix` and `number`.
///
/// A prefix that ends in `x` asks for a vector: what stands before the `x` names the
/// lane type and `number` is the lane count. Any other word names a scalar type, and
/// then the whole word is the name.
pub open spec fn value_type_of(text: Seq<char>, prefix: Seq<char>, number: u32) -> Option<Type> {
    if prefix.len() > 0 && prefix.last() == 'x' {
        match lane_type_named(prefix.drop_last()) {
            Some(lane) => if number <= u16::MAX {
                Type::spec_scalar(lane).spec_by_lanes(number as u16)
            } else {
                None
            },
            None => None,
        }
    } else {
        match lane_type_named(text) {
            Some(lane) => Some(Type::spec_scalar(lane)),
            None => None,
        }
    }
}

/// The token that the word `text` is: a numbered entity, else a type, else an identifier.
pub open spec fn word_token(text: Seq<char>) -> TokenView {
    match split_entity(text) {
        Some((prefix, number)) => match numbered_entity_of(prefix, number) {
            Some(token) => token,
            None => match value_type_of(text, prefix, number) {
                Some(ty) => TokenView::Type(ty),
                None => TokenView::Identifier(text),
            },
        },
        None => TokenView::Identifier(text),
    }
}

// One step of the scanner

/// What the scanner found.
pub enum Outcome {
    /// A token.
    Token(TokenView),
    /// A character that begins no token.
    InvalidChar,
}

/// One step of the scanner: it found `outcome` in the characters from `start` up to
/// `end`, after having passed over the white space before `start`.
pub struct Step {
    pub start: int,
    pub end: int,
    pub outcome: Outcome,
}

/// Where the next token begins, seen from `pos`: after the white space at `pos`.
pub open spec fn token_start(src: Seq<char>, pos: int) -> int {
    run_end(src, pos, Run::Blank)
}

/// What begins at `start`, a position in the source with a character that is no white
/// space, and where it ends.
pub open spec fn scan_at(src: Seq<char>, start: int) -> Step {
    match char_kind(src[start]) {
        CharKind::Comment => Step {
            start,
            end: rest_end(src, start),
            outcome: Outcome::Token(
                TokenView::Comment(src.subrange(start, rest_end(src, start))),
            ),
        },
        CharKind::LPar => Step { start, end: start + 1, outcome: Outcome::Token(TokenView::LPar) },
        CharKind::RPar => Step { start, end: start + 1, outcome: Outcome::Token(TokenView::RPar) },
        CharKind::LBrace => Step {
            start,
            end: start + 1,
            outcome: Outcome::Token(TokenView::LBrace),
        },
        CharKind::RBrace => Step {
            start,
            end: start + 1,
            outcome: Outcome::Token(TokenView::RBrace),
        },
        CharKind::Comma => Step {
            start,
            end: start + 1,
            outcome: Outcome::Token(TokenView::Comma),
        },
        CharKind::Dot => Step { start, end: start + 1, outcome: Outcome::Token(TokenView::Dot) },
        CharKind::Colon => Step {
            start,
            end: start + 1,
            outcome: Outcome::Token(TokenView::Colon),
        },
        CharKind::Equal => Step {
            start,
            end: start + 1,
            outcome: Outcome::Token(TokenView::Equal),
        },
        CharKind::Minus => if starts_with_at(src, start, "->"@) {
            Step { start, end: start + "->"@.len(), outcome: Outcome::Token(TokenView::Arrow) }
        } else {
            Step {
                start,
                end: number_end(src, start),
                outcome: Outcome::Token(number_at(src, start)),
            }
        },
        CharKind::Digit => Step {
            start,
            end: number_end(src, start),
            outcome: Outcome::Token(number_at(src, start)),
        },
        CharKind::Letter => Step {
            start,
            end: word_end(src, start),
            outcome: Outcome::Token(word_token(src.subrange(start, word_end(src, start)))),
        },
        _ => Step { start, end: start + 1, outcome: Outcome::InvalidChar },
    }
}

/// The step that the scanner takes from position `pos`, or `None` when only white space
/// is left.
pub open spec fn step(src: Seq<char>, pos: int) -> Option<Step> {
    let start = token_start(src, pos);
    if start < src.len() {
        Some(scan_at(src, start))
    } else {
        None
    }
}

// Facts

/// A run ends within the source, holds only characters of the run, and is followed by a
/// character that is not of the run, or by nothing.
pub proof fn lemma_run_end(src: Seq<char>, from: int, run: Run)
    requires
        0 <= from <= src.len(),
    ensures
        from <= run_end(src, from, run) <= src.len(),
        forall|i: int| from <= i < run_end(src, from, run) ==> in_run(run, #[trigger] src[i]),
        run_end(src, from, run) < src.len() ==> !in_run(run, src[run_end(src, from, run)]),
    decreases src.len() - from,
{
    if from < src.len() && in_run(run, src[from]) {
        lemma_run_end(src, from + 1, run);
    }
}

/// No more newlines stand before a position than characters.
pub proof fn lemma_newlines_before_bound(src: Seq<char>, pos: int)
    ensures
        newlines_before(src, pos) <= if pos < 0 { 0 } else { pos },
    decreases pos,
{
    if 0 < pos <= src.len() {
        lemma_newlines_before_bound(src, pos - 1);
    }
}

/// A piece of the source that is made longer by one character holds `c` when the
/// shorter piece holds it or the new character is `c`.
pub proof fn lemma_contains_one_more(src: Seq<char>, from: int, to: int, c: char)
    requires
        0 <= from <= to < src.len(),
    ensures
        src.subrange(from, to + 1).contains(c) <==> src.subrange(from, to).contains(c) || src[to]
            == c,
{
    let short = src.subrange(from, to);
    let long = src.subrange(from, to + 1);
    if short.contains(c) {
        let i = choose|i: int| 0 <= i < short.len() && short[i] == c;
        assert(long[i] == c);
    }
    if src[to] == c {
        assert(long[to - from] == c);
    }
    if long.contains(c) {
        let i = choose|i: int| 0 <= i < long.len() && long[i] == c;
        if i < short.len() {
            assert(short[i] == c);
        }
    }
}

} // verus!
