//! Character classes that the scanner dispatches on.
//!
//! Three of them are classes of Unicode, decided by the standard library's tables. They
//! are given names here and nothing else is claimed of them: every contract that depends
//! on such a class is stated over its name.

use vstd::prelude::*;

verus! {

/// Whether `c` is alphabetic in Unicode, as `char::is_alphabetic` reports it.
pub uninterp spec fn unicode_alphabetic(c: char) -> bool;

/// Whether `c` is alphabetic or numeric in Unicode, as `char::is_alphanumeric` reports it.
pub uninterp spec fn unicode_alphanumeric(c: char) -> bool;

/// Whether `c` is white space in Unicode, as `char::is_whitespace` reports it.
pub uninterp spec fn unicode_white_space(c: char) -> bool;

/// `char::is_alphabetic` of the standard library. Not proved: its answer depends on the
/// character alone, and is what the name `unicode_alphabetic` stands for.
pub assume_specification[ char::is_alphabetic ](c: char) -> (b: bool)
    ensures
        b == unicode_alphabetic(c),
;

/// `char::is_alphanumeric` of the standard library. Not proved: its answer depends on the
/// character alone, and is what the name `unicode_alphanumeric` stands for.
pub assume_specification[ char::is_alphanumeric ](c: char) -> (b: bool)
    ensures
        b == unicode_alphanumeric(c),
;

/// `char::is_whitespace` of the standard library. Not proved: its answer depends on the
/// character alone, and is what the name `unicode_white_space` stands for.
pub assume_specification[ char::is_whitespace ](c: char) -> (b: bool)
    ensures
        b == unicode_white_space(c),
;

/// One of the ten ASCII decimal digits.
pub open spec fn is_decimal_digit(c: char) -> bool {
    '0' <= c && c <= '9'
}

/// The value of a decimal digit, `0` to `9`.
pub open spec fn digit_value(c: char) -> nat
    recommends
        is_decimal_digit(c),
{
    (c as u32 - '0' as u32) as nat
}

/// Tells whether `c` is an ASCII decimal digit.
pub fn decimal_digit(c: char) -> (b: bool)
    ensures
        b == is_decimal_digit(c),
{
    '0' <= c && c <= '9'
}

/// The value of the decimal digit `c`.
pub fn decimal_digit_value(c: char) -> (d: u32)
    requires
        is_decimal_digit(c),
    ensures
        d == digit_value(c),
        d <= 9,
{
    c as u32 - '0' as u32
}

/// Whether `c` may continue a word, where `alphanumeric` says whether `c` is a letter or
/// a digit: an underscore may, and so may a letter and a digit.
pub open spec fn word_char_given(c: char, alphanumeric: bool) -> bool {
    c == '_' || alphanumeric
}

/// Whether `c` may continue a number, where `alphanumeric` says whether `c` is a letter
/// or a digit: a sign may, and a digit separator, a radix point, a decimal digit, a
/// letter and any other digit.
pub open spec fn number_char_given(c: char, alphanumeric: bool) -> bool {
    c == '-' || c == '_' || c == '.' || is_decimal_digit(c) || alphanumeric
}

/// A character that may continue a word.
pub open spec fn is_word_char(c: char) -> bool {
    word_char_given(c, unicode_alphanumeric(c))
}

/// A character that may continue a number.
pub open spec fn is_number_char(c: char) -> bool {
    number_char_given(c, unicode_alphanumeric(c))
}

/// Tells whether `c` may continue a word, where `alphanumeric` says whether `c` is a
/// letter or a digit.
pub fn continues_word(c: char, alphanumeric: bool) -> (b: bool)
    ensures
        b == word_char_given(c, alphanumeric),
{
    c == '_' || alphanumeric
}

/// Tells whether `c` may continue a number, where `alphanumeric` says whether `c` is a
/// letter or a digit.
pub fn continues_number(c: char, alphanumeric: bool) -> (b: bool)
    ensures
        b == number_char_given(c, alphanumeric),
{
    c == '-' || c == '_' || c == '.' || decimal_digit(c) || alphanumeric
}

/// Tells whether `c` may continue a word.
pub fn word_char(c: char) -> (b: bool)
    ensures
        b == is_word_char(c),
{
    continues_word(c, c.is_alphanumeric())
}

/// Tells whether `c` may continue a number.
pub fn number_char(c: char) -> (b: bool)
    ensures
        b == is_number_char(c),
{
    continues_number(c, c.is_alphanumeric())
}

/// What the first character of a token says about the token. The order of the tests in
/// `kind_given` decides between classes that overlap.
#[derive(Debug, Clone, Copy, PartialEq, Eq, Structural)]
pub enum CharKind {
    /// `;` begins a comment.
    Comment,
    /// `(`
    LPar,
    /// `)`
    RPar,
    /// `{`
    LBrace,
    /// `}`
    RBrace,
    /// `,`
    Comma,
    /// `.`
    Dot,
    /// `:`
    Colon,
    /// `=`
    Equal,
    /// `-` begins an arrow or a negative number.
    Minus,
    /// A decimal digit begins a number.
    Digit,
    /// A letter begins a word.
    Letter,
    /// White space separates tokens.
    Space,
    /// Any other character begins nothing.
    Other,
}

/// The kind of the character `c`, where `alphabetic` and `white_space` say whether `c` is
/// a letter and whether it is white space.
pub open spec fn kind_given(c: char, alphabetic: bool, white_space: bool) -> CharKind {
    if c == ';' {
        CharKind::Comment
    } else if c == '(' {
        CharKind::LPar
    } else if c == ')' {
        CharKind::RPar
    } else if c == '{' {
        CharKind::LBrace
    } else if c == '}' {
        CharKind::RBrace
    } else if c == ',' {
        CharKind::Comma
    } else if c == '.' {
        CharKind::Dot
    } else if c == ':' {
        CharKind::Colon
    } else if c == '=' {
        CharKind::Equal
    } else if c == '-' {
        CharKind::Minus
    } else if is_decimal_digit(c) {
        CharKind::Digit
    } else if alphabetic {
        CharKind::Letter
    } else if white_space {
        CharKind::Space
    } else {
        CharKind::Other
    }
}

/// The kind of the character `c`.
pub open spec fn char_kind(c: char) -> CharKind {
    kind_given(c, unicode_alphabetic(c), unicode_white_space(c))
}

/// A run of characters that the scanner passes over in one go.
#[derive(Debug, Clone, Copy, PartialEq, Eq, Structural)]
pub enum Run {
    /// White space between tokens.
    Blank,
    /// Everything up to the end of the line.
    Line,
    /// The characters of a word.
    Word,
    /// The characters of a number.
    Number,
}

/// Whether the character `c` continues the run `run`.
pub open spec fn in_run(run: Run, c: char) -> bool {
    match run {
        Run::Blank => char_kind(c) is Space,
        Run::Line => c != '\n',
        Run::Word => is_word_char(c),
        Run::Number => is_number_char(c),
    }
}

/// Finds the kind of the character `c`, where `alphabetic` and `white_space` say whether
/// `c` is a letter and whether it is white space.
pub fn classify(c: char, alphabetic: bool, white_space: bool) -> (kind: CharKind)
    ensures
        kind == kind_given(c, alphabetic, white_space),
{
    if c == ';' {
        CharKind::Comment
    } else if c == '(' {
        CharKind::LPar
    } else if c == ')' {
        CharKind::RPar
    } else if c == '{' {
        CharKind::LBrace
    } else if c == '}' {
        CharKind::RBrace
    } else if c == ',' {
        CharKind::Comma
    } else if c == '.' {
        CharKind::Dot
    } else if c == ':' {
        CharKind::Colon
    } else if c == '=' {
        CharKind::Equal
    } else if c == '-' {
        CharKind::Minus
    } else if decimal_digit(c) {
        CharKind::Digit
    } else if alphabetic {
        CharKind::Letter
    } else if white_space {
        CharKind::Space
    } else {
        CharKind::Other
    }
}

/// Finds the kind of the character `c`.
pub fn kind_of(c: char) -> (kind: CharKind)
    ensures
        kind == char_kind(c),
{
    classify(c, c.is_alphabetic(), c.is_whitespace())
}

/// Tells whether the character `c` continues the run `run`.
pub fn continues(run: Run, c: char) -> (b: bool)
    ensures
        b == in_run(run, c),
{
    match run {
        Run::Blank => match kind_of(c) {
            CharKind::Space => true,
            _ => false,
        },
        Run::Line => c != '\n',
        Run::Word => word_char(c),
        Run::Number => number_char(c),
    }
}

} // verus!
