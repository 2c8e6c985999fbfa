//! The scanner: it turns source text into tokens, one at a time.

use crate::charclass::{continues, kind_of, number_char, unicode_alphabetic, CharKind, Run};
use crate::entities::{Ebb, Value};
use crate::grammar::{
    has_keyword_at, has_payload_at, is_float_at, lemma_contains_one_more,
    lemma_newlines_before_bound, line_number_at, number_at, number_end, numbered_entity_of,
    payload_end, rest_end, run_end, sign_end, starts_with_at, step, token_start, value_type_of,
    word_end, word_token, Outcome,
};
use crate::laws::lemma_position_after_step;
use crate::location::Location;
use crate::names::split_entity_chars;
use crate::text::{
    byte_offset, chars_are, lemma_byte_offset_next, slice_between, to_chars, utf8_len,
};
use crate::token::{error, token, Error, LocatedError, LocatedToken, Token, TokenView};
use crate::types::{LaneType, Type};
use vstd::prelude::*;
use vstd::slice::slice_subrange;
use vstd::utf8::encode_utf8;

verus! {

/// Lexical analysis.
///
/// A `Lexer` reads text from a `&str` and provides a sequence of tokens.
///
/// Also keep track of a line number for error reporting.
pub struct Lexer<'a> {
    // Complete source being processed.
    source: &'a str,
    // The characters of `source`, for access by position.
    chars: Vec<char>,
    // Next character to be processed, or `None` at the end.
    lookahead: Option<char>,
    // Position in `chars` of the lookahead character.
    pos: usize,
    // Index into `source` of the lookahead character, in bytes.
    offset: usize,
    // Current line number.
    line_number: usize,
}

impl<'a> Lexer<'a> {
    /// The source text, as characters.
    pub closed spec fn text(&self) -> Seq<char> {
        self.source@
    }

    /// How many characters of the source have been consumed: the position of the
    /// character that is looked at next.
    pub closed spec fn position(&self) -> int {
        self.pos as int
    }

    /// The character that is looked at next, or `None` at the end of the source.
    pub open spec fn peek(&self) -> Option<char> {
        if 0 <= self.position() < self.text().len() {
            Some(self.text()[self.position()])
        } else {
            None
        }
    }

    /// The state of the scanner is consistent: its position lies within the source, and
    /// what it holds of the character and the line at that position is true of the
    /// source.
    pub closed spec fn wf(&self) -> bool {
        &&& self.chars@ == self.source@
        &&& self.pos <= self.chars@.len()
        &&& self.offset == byte_offset(self.chars@, self.pos as int)
        &&& encode_utf8(self.chars@).len() <= usize::MAX
        &&& self.lookahead == self.peek()
        &&& self.line_number == line_number_at(self.chars@, self.pos as int)
    }

    /// The position of a consistent scanner lies within the source.
    pub proof fn lemma_position_in_text(&self)
        requires
            self.wf(),
        ensures
            0 <= self.position() <= self.text().len(),
    {
    }

    /// A scanner at the beginning of `s`.
    pub fn new(s: &'a str) -> (lex: Lexer<'a>)
        ensures
            lex.wf(),
            lex.text() == s@,
            lex.position() == 0,
    {
        let chars = to_chars(s);
        let lookahead = if 0 < chars.len() {
            Some(chars[0])
        } else {
            None
        };
        let bytes = s.as_bytes();
        assert(bytes@.len() <= usize::MAX) by {
            vstd::slice::axiom_spec_len(bytes);
        }
        assert(chars@.take(0) =~= Seq::<char>::empty());
        Lexer {
            source: s,
            chars: chars,
            lookahead: lookahead,
            pos: 0,
            offset: 0,
            line_number: 1,
        }
    }

    /// Advance to the next character.
    /// Return the next lookahead character, or `None` when the end is encountered.
    /// The line number goes up when the character that is left behind is a newline.
    pub fn next_ch(&mut self) -> (r: Option<char>)
        requires
            old(self).wf(),
        ensures
            final(self).wf(),
            final(self).text() == old(self).text(),
            final(self).position() == if old(self).position() < old(self).text().len() {
                old(self).position() + 1
            } else {
                old(self).position()
            },
            r == final(self).peek(),
    {
        proof {
            lemma_newlines_before_bound(self.chars@, self.pos as int);
        }
        let end = self.chars.len();
        match self.lookahead {
            Some(c) => {
                if c == '\n' && self.line_number < usize::MAX {
                    self.line_number += 1;
                }
                proof {
                    lemma_byte_offset_next(self.chars@, self.pos as int);
                }
                self.offset += utf8_len(c);
                self.pos += 1;
            },
            None => {},
        }
        self.lookahead = if self.pos < end {
            Some(self.chars[self.pos])
        } else {
            None
        };
        self.lookahead
    }

    /// Get the location corresponding to the lookahead character.
    pub fn loc(&self) -> (l: Location)
        requires
            self.wf(),
        ensures
            l.line_number == line_number_at(self.text(), self.position()),
    {
        Location { line_number: self.line_number }
    }

    /// Starting from the lookahead character, are we looking at `prefix`?
    pub fn looking_at(&self, prefix: &str) -> (b: bool)
        requires
            self.wf(),
        ensures
            b == starts_with_at(self.text(), self.position(), prefix@),
    {
        let n = prefix.unicode_len();
        let total = self.chars.len();
        if n > total - self.pos {
            return false;
        }
        let mut i: usize = 0;
        while i < n
            invariant
                self.wf(),
                n == prefix@.len(),
                i <= n,
                total == self.chars@.len(),
                self.pos + n <= total,
                forall|j: int| 0 <= j < i ==> self.chars@[self.pos + j] == prefix@[j],
            decreases n - i,
        {
            if self.chars[self.pos + i] != prefix.get_char(i) {
                assert(self.chars@.subrange(self.pos as int, self.pos + n)[i as int]
                    != prefix@[i as int]);
                return false;
            }
            i += 1;
        }
        assert(self.chars@.subrange(self.pos as int, self.pos + n) =~= prefix@);
        true
    }

    /// Scan a single-char token.
    pub fn scan_char(&mut self, tok: Token<'a>) -> (r: Result<LocatedToken<'a>, LocatedError>)
        requires
            old(self).wf(),
            old(self).peek() is Some,
        ensures
            final(self).wf(),
            final(self).text() == old(self).text(),
            final(self).position() == old(self).position() + 1,
            r matches Ok(located) && located.token == tok && located.location.line_number
                == line_number_at(old(self).text(), old(self).position()),
    {
        let loc = self.loc();
        self.next_ch();
        token(tok, loc)
    }

    /// Scan a multi-char token.
    pub fn scan_chars(&mut self, count: usize, tok: Token<'a>) -> (r: Result<
        LocatedToken<'a>,
        LocatedError,
    >)
        requires
            old(self).wf(),
            old(self).position() + count <= old(self).text().len(),
        ensures
            final(self).wf(),
            final(self).text() == old(self).text(),
            final(self).position() == old(self).position() + count,
            r matches Ok(located) && located.token == tok && located.location.line_number
                == line_number_at(old(self).text(), old(self).position()),
    {
        let loc = self.loc();
        self.skip_chars(count);
        token(tok, loc)
    }

    /// Get the rest of the current line: the text from the lookahead character up to the
    /// next newline, or up to the end of the source. The newline is not taken.
    /// The next token returned by `next()` will be from the following lines.
    pub fn rest_of_line(&mut self) -> (text: &'a str)
        requires
            old(self).wf(),
        ensures
            final(self).wf(),
            final(self).text() == old(self).text(),
            final(self).position() == rest_end(old(self).text(), old(self).position()),
            text@ == old(self).text().subrange(
                old(self).position(),
                rest_end(old(self).text(), old(self).position()),
            ),
    {
        let begin = self.pos;
        let begin_offset = self.offset;
        self.skip_run(Run::Line);
        slice_between(
            self.source,
            begin_offset,
            self.offset,
            Ghost(begin as int),
            Ghost(self.pos as int),
        )
    }

    /// Advance to the end of the run of `run` characters that begins at the lookahead
    /// character.
    fn skip_run(&mut self, run: Run)
        requires
            old(self).wf(),
        ensures
            final(self).wf(),
            final(self).text() == old(self).text(),
            final(self).position() == run_end(old(self).text(), old(self).position(), run),
            old(self).position() <= final(self).position(),
    {
        loop
            invariant
                self.wf(),
                self.text() == old(self).text(),
                old(self).position() <= self.position(),
                run_end(self.text(), self.position(), run) == run_end(
                    old(self).text(),
                    old(self).position(),
                    run,
                ),
            ensures
                self.position() == run_end(old(self).text(), old(self).position(), run),
                old(self).position() <= self.position(),
            decreases self.text().len() - self.position(),
        {
            match self.lookahead {
                Some(c) => {
                    if !continues(run, c) {
                        break;
                    }
                },
                None => {
                    break;
                },
            }
            self.next_ch();
        }
    }

    /// If prefix is a well-known entity prefix and suffix is a valid entity number, return
    /// the decoded token.
    pub fn numbered_entity(prefix: &[char], number: u32) -> (r: Option<Token<'a>>)
        ensures
            match r {
                Some(tok) => numbered_entity_of(prefix@, number) == Some(tok@),
                None => numbered_entity_of(prefix@, number) is None,
            },
            r is Some ==> r->0@.wf(),
    {
        if chars_are(prefix, "v") {
            match Value::direct_with_number(number) {
                Some(value) => Some(Token::Value(value)),
                None => None,
            }
        } else if chars_are(prefix, "vx") {
            match Value::table_with_number(number) {
                Some(value) => Some(Token::Value(value)),
                None => None,
            }
        } else if chars_are(prefix, "ebb") {
            match Ebb::with_number(number) {
                Some(ebb) => Some(Token::Ebb(ebb)),
                None => None,
            }
        } else if chars_are(prefix, "ss") {
            Some(Token::StackSlot(number))
        } else if chars_are(prefix, "jt") {
            Some(Token::JumpTable(number))
        } else if chars_are(prefix, "fn") {
            Some(Token::FuncRef(number))
        } else if chars_are(prefix, "sig") {
            Some(Token::SigRef(number))
        } else {
            None
        }
    }

    /// Recognize a scalar or vector type.
    pub fn value_type(text: &[char], prefix: &[char], number: u32) -> (r: Option<Token<'a>>)
        ensures
            match r {
                Some(tok) => value_type_of(text@, prefix@, number) matches Some(ty) && tok@
                    == TokenView::Type(ty),
                None => value_type_of(text@, prefix@, number) is None,
            },
            r is Some ==> r->0@.wf(),
    {
        let is_vector = prefix.len() > 0 && prefix[prefix.len() - 1] == 'x';
        let scalar = if is_vector {
            slice_subrange(prefix, 0, prefix.len() - 1)
        } else {
            text
        };
        assert(is_vector ==> scalar@ =~= prefix@.drop_last());
        let lane = if chars_are(scalar, "i8") {
            LaneType::I8
        } else if chars_are(scalar, "i16") {
            LaneType::I16
        } else if chars_are(scalar, "i32") {
            LaneType::I32
        } else if chars_are(scalar, "i64") {
            LaneType::I64
        } else if chars_are(scalar, "f32") {
            LaneType::F32
        } else if chars_are(scalar, "f64") {
            LaneType::F64
        } else if chars_are(scalar, "b1") {
            LaneType::B1
        } else if chars_are(scalar, "b8") {
            LaneType::B8
        } else if chars_are(scalar, "b16") {
            LaneType::B16
        } else if chars_are(scalar, "b32") {
            LaneType::B32
        } else if chars_are(scalar, "b64") {
            LaneType::B64
        } else {
            return None;
        };
        let base_type = Type::scalar(lane);
        if is_vector {
            if number <= 0xffff {
                match base_type.by_lanes(number as u16) {
                    Some(ty) => Some(Token::Type(ty)),
                    None => None,
                }
            } else {
                None
            }
        } else {
            Some(Token::Type(base_type))
        }
    }

    /// The token that the word `text` is: a numbered entity like `ebb15` or `v45`, else a
    /// type, else an identifier that holds the word.
    pub fn resolve_word(text: &'a str) -> (tok: Token<'a>)
        ensures
            tok@ == word_token(text@),
            tok@.wf(),
    {
        let chars = to_chars(text);
        Self::word_token(text, chars.as_slice())
    }

    /// The token that the word `text` is, where `word` holds the characters of `text`.
    fn word_token(text: &'a str, word: &[char]) -> (tok: Token<'a>)
        requires
            text@ == word@,
        ensures
            tok@ == word_token(text@),
            tok@.wf(),
    {
        match split_entity_chars(word) {
            Some((prefix, number)) => match Self::numbered_entity(prefix, number) {
                Some(tok) => tok,
                None => match Self::value_type(word, prefix, number) {
                    Some(tok) => tok,
                    None => Token::Identifier(text),
                },
            },
            None => Token::Identifier(text),
        }
    }

    /// Scan a comment extending to the end of the current line.
    pub fn scan_comment(&mut self) -> (r: Result<LocatedToken<'a>, LocatedError>)
        requires
            old(self).wf(),
        ensures
            final(self).wf(),
            final(self).text() == old(self).text(),
            final(self).position() == rest_end(old(self).text(), old(self).position()),
            r matches Ok(located) && located.token@ == TokenView::Comment(
                old(self).text().subrange(
                    old(self).position(),
                    rest_end(old(self).text(), old(self).position()),
                ),
            ) && located.location.line_number == line_number_at(
                old(self).text(),
                old(self).position(),
            ),
    {
        let loc = self.loc();
        let text = self.rest_of_line();
        token(Token::Comment(text), loc)
    }

    /// Scan a 'word', which is an identifier-like sequence of characters beginning with
    /// '_' or an alphabetic char, followed by zero or more alphanumeric or '_' characters.
    pub fn scan_word(&mut self) -> (r: Result<LocatedToken<'a>, LocatedError>)
        requires
            old(self).wf(),
            old(self).peek() matches Some(c) && (c == '_' || unicode_alphabetic(c)),
        ensures
            final(self).wf(),
            final(self).text() == old(self).text(),
            final(self).position() == word_end(old(self).text(), old(self).position()),
            r matches Ok(located) && located.token@ == word_token(
                old(self).text().subrange(
                    old(self).position(),
                    word_end(old(self).text(), old(self).position()),
                ),
            ) && located.token@.wf() && located.location.line_number == line_number_at(
                old(self).text(),
                old(self).position(),
            ),
    {
        let begin = self.pos;
        let begin_offset = self.offset;
        let loc = self.loc();
        self.next_ch();
        self.skip_run(Run::Word);
        let text = slice_between(
            self.source,
            begin_offset,
            self.offset,
            Ghost(begin as int),
            Ghost(self.pos as int),
        );
        let word = slice_subrange(self.chars.as_slice(), begin, self.pos);
        // Look for numbered well-known entities like ebb15, v45, ...
        token(Self::word_token(text, word), loc)
    }

    /// Advance by `count` characters.
    fn skip_chars(&mut self, count: usize)
        requires
            old(self).wf(),
            old(self).position() + count <= old(self).text().len(),
        ensures
            final(self).wf(),
            final(self).text() == old(self).text(),
            final(self).position() == old(self).position() + count,
    {
        let mut i: usize = 0;
        while i < count
            invariant
                self.wf(),
                self.text() == old(self).text(),
                i <= count,
                self.position() == old(self).position() + i,
                old(self).position() + count <= old(self).text().len(),
            decreases count - i,
        {
            self.next_ch();
            i += 1;
        }
    }

    /// Scan a number token which can represent either an integer or floating point number.
    ///
    /// Accept the following forms:
    ///
    /// - `10`: Integer
    /// - `-10`: Integer
    /// - `0xff_00`: Integer
    /// - `0.0`: Float
    /// - `0x1.f`: Float
    /// - `-0x2.4`: Float
    /// - `0x0.4p-34`: Float
    ///
    /// This function does not filter out all invalid numbers. It depends on the
    /// context-sensitive decoding of the text for that. For example, the number of digits
    /// allowed in a 32-bit and in a 64-bit floating point constant are different.
    pub fn scan_number(&mut self) -> (r: Result<LocatedToken<'a>, LocatedError>)
        requires
            old(self).wf(),
        ensures
            final(self).wf(),
            final(self).text() == old(self).text(),
            final(self).position() == number_end(old(self).text(), old(self).position()),
            r matches Ok(located) && located.token@ == number_at(
                old(self).text(),
                old(self).position(),
            ) && located.location.line_number == line_number_at(
                old(self).text(),
                old(self).position(),
            ),
    {
        let begin = self.pos;
        let begin_offset = self.offset;
        let loc = self.loc();
        let mut is_float = false;

        // Skip a leading sign.
        match self.lookahead {
            Some(c) => {
                if c == '-' {
                    self.next_ch();
                }
            },
            None => {},
        }
        let ghost digits = self.position();

        // Check for NaNs with payloads.
        proof {
            reveal_strlit("NaN:");
            reveal_strlit("sNaN:");
        }
        if self.looking_at("NaN:") {
            // Skip the `NaN:` prefix, the loop below won't accept it.
            // We expect a hexadecimal number to follow the colon.
            self.skip_chars(4);
            is_float = true;
        } else if self.looking_at("sNaN:") {
            self.skip_chars(5);
            is_float = true;
        } else if self.looking_at("NaN") || self.looking_at("Inf") {
            // This is Inf or a default quiet NaN.
            is_float = true;
        }
        let ghost body = self.position();
        assert(self.text().subrange(body, body) =~= Seq::<char>::empty());

        // Look for the end of this number. Detect the radix point if there is one.
        loop
            invariant
                self.wf(),
                self.text() == old(self).text(),
                begin == old(self).position(),
                begin_offset == byte_offset(self.text(), begin as int),
                begin <= digits <= body <= self.position(),
                digits == sign_end(self.text(), begin as int),
                body == payload_end(self.text(), digits),
                run_end(self.text(), self.position(), Run::Number) == run_end(
                    self.text(),
                    body,
                    Run::Number,
                ),
                is_float == (has_payload_at(self.text(), digits) || has_keyword_at(
                    self.text(),
                    digits,
                ) || self.text().subrange(body, self.position()).contains('.')),
            ensures
                self.wf(),
                self.text() == old(self).text(),
                begin_offset == byte_offset(self.text(), begin as int),
                begin <= self.position(),
                self.position() == number_end(self.text(), begin as int),
                is_float == is_float_at(self.text(), begin as int),
            decreases self.text().len() - self.position(),
        {
            match self.lookahead {
                Some(c) => {
                    if !number_char(c) {
                        break;
                    }
                    proof {
                        lemma_contains_one_more(self.text(), body, self.position(), '.');
                    }
                    if c == '.' {
                        is_float = true;
                    }
                },
                None => {
                    break;
                },
            }
            self.next_ch();
        }
        let text = slice_between(
            self.source,
            begin_offset,
            self.offset,
            Ghost(begin as int),
            Ghost(self.pos as int),
        );
        if is_float {
            token(Token::Float(text), loc)
        } else {
            token(Token::Integer(text), loc)
        }
    }

    /// Get the next token or a lexical error.
    ///
    /// Return None when the end of the source is encountered.
    ///
    /// White space is passed over first. What is then found, and where it ends, is what
    /// `step` says of the source and the position before the call. After an error the
    /// scanner stands behind the offending character and goes on from there.
    pub fn next(&mut self) -> (r: Option<Result<LocatedToken<'a>, LocatedError>>)
        requires
            old(self).wf(),
        ensures
            final(self).wf(),
            final(self).text() == old(self).text(),
            old(self).position() <= final(self).position() <= old(self).text().len(),
            r is Some ==> old(self).position() < final(self).position(),
            r is None ==> final(self).position() == old(self).text().len(),
            match step(old(self).text(), old(self).position()) {
                None => r is None && final(self).position() == old(self).text().len(),
                Some(found) => {
                    &&& final(self).position() == found.end
                    &&& match found.outcome {
                        Outcome::Token(tok) => r matches Some(Ok(located)) && located.token@
                            == tok && tok.wf() && located.location.line_number
                            == line_number_at(old(self).text(), found.start),
                        Outcome::InvalidChar => r == Some(
                            Err::<LocatedToken<'a>, LocatedError>(
                                LocatedError {
                                    error: Error::InvalidChar,
                                    location: Location {
                                        line_number: line_number_at(
                                            old(self).text(),
                                            found.start,
                                        ),
                                    },
                                },
                            ),
                        ),
                    }
                },
            },
    {
        proof {
            lemma_position_after_step(self.text(), self.position());
        }
        loop
            invariant
                self.wf(),
                self.text() == old(self).text(),
                token_start(self.text(), self.position()) == token_start(
                    old(self).text(),
                    old(self).position(),
                ),
                match step(old(self).text(), old(self).position()) {
                    Some(found) => old(self).position() < found.end <= old(self).text().len(),
                    None => true,
                },
            decreases self.text().len() - self.position(),
        {
            let loc = self.loc();
            let c = match self.lookahead {
                None => {
                    return None;
                },
                Some(c) => c,
            };
            proof {
                reveal_strlit("->");
            }
            match kind_of(c) {
                CharKind::Comment => {
                    return Some(self.scan_comment());
                },
                CharKind::LPar => {
                    return Some(self.scan_char(Token::LPar));
                },
                CharKind::RPar => {
                    return Some(self.scan_char(Token::RPar));
                },
                CharKind::LBrace => {
                    return Some(self.scan_char(Token::LBrace));
                },
                CharKind::RBrace => {
                    return Some(self.scan_char(Token::RBrace));
                },
                CharKind::Comma => {
                    return Some(self.scan_char(Token::Comma));
                },
                CharKind::Dot => {
                    return Some(self.scan_char(Token::Dot));
                },
                CharKind::Colon => {
                    return Some(self.scan_char(Token::Colon));
                },
                CharKind::Equal => {
                    return Some(self.scan_char(Token::Equal));
                },
                CharKind::Minus => {
                    if self.looking_at("->") {
                        return Some(self.scan_chars(2, Token::Arrow));
                    } else {
                        return Some(self.scan_number());
                    }
                },
                CharKind::Digit => {
                    return Some(self.scan_number());
                },
                CharKind::Letter => {
                    return Some(self.scan_word());
                },
                CharKind::Space => {
                    self.next_ch();
                },
                CharKind::Other => {
                    // Skip invalid char, return error.
                    self.next_ch();
                    return Some(error(Error::InvalidChar, loc));
                },
            }
        }
    }
}

} // verus!
