use cton_lexer::charclass::{
    classify, continues, continues_number, continues_word, decimal_digit, decimal_digit_value,
    kind_of, number_char, word_char, CharKind, Run,
};
use cton_lexer::names::parse_decimal;
use cton_lexer::text::{chars_are, to_chars, utf8_len};
use cton_lexer::types::lane_count_ok;

#[test]
fn kinds_of_punctuation() {
    assert_eq!(kind_of(';'), CharKind::Comment);
    assert_eq!(kind_of('('), CharKind::LPar);
    assert_eq!(kind_of(')'), CharKind::RPar);
    assert_eq!(kind_of('{'), CharKind::LBrace);
    assert_eq!(kind_of('}'), CharKind::RBrace);
    assert_eq!(kind_of(','), CharKind::Comma);
    assert_eq!(kind_of('.'), CharKind::Dot);
    assert_eq!(kind_of(':'), CharKind::Colon);
    assert_eq!(kind_of('='), CharKind::Equal);
    assert_eq!(kind_of('-'), CharKind::Minus);
}

#[test]
fn kinds_of_other_characters() {
    assert_eq!(kind_of('0'), CharKind::Digit);
    assert_eq!(kind_of('9'), CharKind::Digit);
    assert_eq!(kind_of('a'), CharKind::Letter);
    assert_eq!(kind_of('Z'), CharKind::Letter);
    assert_eq!(kind_of('\u{4eac}'), CharKind::Letter);
    assert_eq!(kind_of(' '), CharKind::Space);
    assert_eq!(kind_of('\n'), CharKind::Space);
    assert_eq!(kind_of('\t'), CharKind::Space);
    assert_eq!(kind_of('\u{a0}'), CharKind::Space);
    assert_eq!(kind_of('_'), CharKind::Other);
    assert_eq!(kind_of('#'), CharKind::Other);
    assert_eq!(kind_of('>'), CharKind::Other);
    assert_eq!(kind_of('+'), CharKind::Other);
    assert_eq!(kind_of('\u{663}'), CharKind::Other);
    assert_eq!(kind_of('\u{1f49d}'), CharKind::Other);
}

#[test]
fn the_first_test_that_holds_decides() {
    assert_eq!(classify(';', true, true), CharKind::Comment);
    assert_eq!(classify('-', true, true), CharKind::Minus);
    assert_eq!(classify('7', true, true), CharKind::Digit);
    assert_eq!(classify('q', true, true), CharKind::Letter);
    assert_eq!(classify('q', true, false), CharKind::Letter);
    assert_eq!(classify('q', false, true), CharKind::Space);
    assert_eq!(classify('q', false, false), CharKind::Other);
}

#[test]
fn characters_of_words_and_numbers() {
    assert!(word_char('_'));
    assert!(word_char('a'));
    assert!(word_char('7'));
    assert!(word_char('\u{e9}'));
    assert!(!word_char('-'));
    assert!(!word_char('.'));
    assert!(!word_char(' '));
    assert!(number_char('-'));
    assert!(number_char('_'));
    assert!(number_char('.'));
    assert!(number_char('7'));
    assert!(number_char('x'));
    assert!(number_char('p'));
    assert!(!number_char(':'));
    assert!(!number_char('+'));
    assert!(!number_char(' '));
    assert!(continues_word('_', false));
    assert!(continues_word('+', true));
    assert!(!continues_word('+', false));
    assert!(continues_number('.', false));
    assert!(continues_number('5', false));
    assert!(continues_number('+', true));
    assert!(!continues_number('+', false));
}

#[test]
fn runs() {
    assert!(continues(Run::Blank, ' '));
    assert!(continues(Run::Blank, '\n'));
    assert!(!continues(Run::Blank, 'a'));
    assert!(!continues(Run::Blank, '#'));
    assert!(continues(Run::Line, ' '));
    assert!(continues(Run::Line, ';'));
    assert!(continues(Run::Line, '\r'));
    assert!(!continues(Run::Line, '\n'));
    assert!(continues(Run::Word, '_'));
    assert!(!continues(Run::Word, '-'));
    assert!(continues(Run::Number, '-'));
    assert!(!continues(Run::Number, ','));
}

#[test]
fn decimal_digits() {
    assert!(decimal_digit('0'));
    assert!(decimal_digit('9'));
    assert!(!decimal_digit('/'));
    assert!(!decimal_digit(':'));
    assert!(!decimal_digit('a'));
    assert!(!decimal_digit('\u{663}'));
    assert_eq!(decimal_digit_value('0'), 0);
    assert_eq!(decimal_digit_value('7'), 7);
    assert_eq!(decimal_digit_value('9'), 9);
}

#[test]
fn decimal_numbers() {
    assert_eq!(parse_decimal(&['0']), Some(0));
    assert_eq!(parse_decimal(&['0', '0', '7']), Some(7));
    assert_eq!(parse_decimal(&['1', '2', '3']), Some(123));
    assert_eq!(parse_decimal(&to_chars("4294967295")), Some(4294967295));
    assert_eq!(parse_decimal(&to_chars("4294967296")), None);
    assert_eq!(parse_decimal(&to_chars("42949672950")), None);
    assert_eq!(parse_decimal(&[]), None);
    assert_eq!(parse_decimal(&['1', 'x']), None);
    assert_eq!(parse_decimal(&['+', '1']), None);
    assert_eq!(parse_decimal(&['-', '1']), None);
}

#[test]
fn text_as_characters() {
    assert_eq!(to_chars(""), Vec::<char>::new());
    assert_eq!(to_chars("v\u{e9}1"), vec!['v', '\u{e9}', '1']);
    assert!(chars_are(&['e', 'b', 'b'], "ebb"));
    assert!(chars_are(&[], ""));
    assert!(!chars_are(&['e', 'b'], "ebb"));
    assert!(!chars_are(&['e', 'b', 'b'], "eb"));
    assert!(!chars_are(&['e', 'b', 'c'], "ebb"));
}

#[test]
fn encoded_lengths() {
    assert_eq!(utf8_len('\u{0}'), 1);
    assert_eq!(utf8_len('a'), 1);
    assert_eq!(utf8_len('\u{7f}'), 1);
    assert_eq!(utf8_len('\u{80}'), 2);
    assert_eq!(utf8_len('\u{7ff}'), 2);
    assert_eq!(utf8_len('\u{800}'), 3);
    assert_eq!(utf8_len('\u{ffff}'), 3);
    assert_eq!(utf8_len('\u{10000}'), 4);
    assert_eq!(utf8_len('\u{10ffff}'), 4);
    for c in ['a', '\u{e9}', '\u{4eac}', '\u{1f49d}'] {
        assert_eq!(utf8_len(c), c.len_utf8());
    }
}

#[test]
fn lane_counts() {
    for n in [1, 2, 4, 8, 16, 32, 64, 128, 256] {
        assert!(lane_count_ok(n));
    }
    for n in [0, 3, 5, 6, 12, 255, 257, 512, 1024, 65536] {
        assert!(!lane_count_ok(n));
    }
}
