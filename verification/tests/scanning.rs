use cton_lexer::entities::{Ebb, Value, EBB_NUMBER_LIMIT, VALUE_NUMBER_LIMIT};
use cton_lexer::lexer::Lexer;
use cton_lexer::location::Location;
use cton_lexer::names::{split_entity_chars, split_entity_name, trailing_digits};
use cton_lexer::token::{Error, LocatedError, LocatedToken, Token};
use cton_lexer::types::{LaneType, Type};

fn tok<'a>(token: Token<'a>, line: usize) -> Option<Result<LocatedToken<'a>, LocatedError>> {
    Some(Ok(LocatedToken { token: token, location: Location { line_number: line } }))
}

fn invalid<'a>(line: usize) -> Option<Result<LocatedToken<'a>, LocatedError>> {
    Some(Err(LocatedError { error: Error::InvalidChar, location: Location { line_number: line } }))
}

// Every token of `source`, without the locations.
fn tokens(source: &str) -> Vec<Result<Token<'_>, Error>> {
    let mut lex = Lexer::new(source);
    let mut found = Vec::new();
    while let Some(result) = lex.next() {
        found.push(match result {
            Ok(located) => Ok(located.token),
            Err(located) => Err(located.error),
        });
        assert!(found.len() <= source.chars().count());
    }
    assert_eq!(lex.next(), None);
    found
}

fn vector(lane: LaneType, lanes: u16) -> Token<'static> {
    Token::Type(Type::scalar(lane).by_lanes(lanes).unwrap())
}

#[test]
fn scan_reaches_the_end() {
    let source = "ebb0(vx0: i32):\n  v1 = iadd.i32 vx0, vx0 ; twice\n  return v1\n§ -> }";
    let found = tokens(source);
    assert_eq!(found.len(), 21);
    assert_eq!(found[0], Ok(Token::Ebb(Ebb { number: 0 })));
    assert_eq!(found[4], Ok(Token::Type(Type::scalar(LaneType::I32))));
    assert_eq!(found[9], Ok(Token::Identifier("iadd")));
    assert_eq!(found[15], Ok(Token::Comment("; twice")));
    assert_eq!(found[17], Ok(Token::Value(Value::Direct(1))));
    assert_eq!(found[18], Err(Error::InvalidChar));
    assert_eq!(found[19], Ok(Token::Arrow));
    assert_eq!(found[20], Ok(Token::RBrace));
}

#[test]
fn end_of_input_is_final() {
    let mut lex = Lexer::new("x \n\t ");
    assert_eq!(lex.next(), tok(Token::Identifier("x"), 1));
    assert_eq!(lex.next(), None);
    assert_eq!(lex.next(), None);
    assert_eq!(lex.rest_of_line(), "");
    assert_eq!(lex.next(), None);
}

#[test]
fn arrow_and_minus() {
    assert_eq!(tokens("a->b"),
               vec![Ok(Token::Identifier("a")), Ok(Token::Arrow), Ok(Token::Identifier("b"))]);
    assert_eq!(tokens("->"), vec![Ok(Token::Arrow)]);
    assert_eq!(tokens("-"), vec![Ok(Token::Integer("-"))]);
    assert_eq!(tokens("-)"), vec![Ok(Token::Integer("-")), Ok(Token::RPar)]);
    assert_eq!(tokens("- 5"), vec![Ok(Token::Integer("-")), Ok(Token::Integer("5"))]);
    assert_eq!(tokens("-->"), vec![Ok(Token::Integer("--")), Err(Error::InvalidChar)]);
    assert_eq!(tokens("1-2"), vec![Ok(Token::Integer("1-2"))]);
}

#[test]
fn float_forms() {
    assert_eq!(tokens("0x1.f"), vec![Ok(Token::Float("0x1.f"))]);
    assert_eq!(tokens("-0x2.4"), vec![Ok(Token::Float("-0x2.4"))]);
    assert_eq!(tokens("1."), vec![Ok(Token::Float("1."))]);
    assert_eq!(tokens("-.5"), vec![Ok(Token::Float("-.5"))]);
    assert_eq!(tokens("10"), vec![Ok(Token::Integer("10"))]);
    assert_eq!(tokens("-10"), vec![Ok(Token::Integer("-10"))]);
    assert_eq!(tokens("0xff_00"), vec![Ok(Token::Integer("0xff_00"))]);
    assert_eq!(tokens("1.2.3"), vec![Ok(Token::Float("1.2.3"))]);
    assert_eq!(tokens("1 .2"), vec![Ok(Token::Integer("1")), Ok(Token::Dot), Ok(Token::Integer("2"))]);
}

#[test]
fn nan_and_inf() {
    assert_eq!(tokens("-NaN"), vec![Ok(Token::Float("-NaN"))]);
    assert_eq!(tokens("-Inf"), vec![Ok(Token::Float("-Inf"))]);
    assert_eq!(tokens("-NaN:0x7f"), vec![Ok(Token::Float("-NaN:0x7f"))]);
    assert_eq!(tokens("-sNaN:0x1"), vec![Ok(Token::Float("-sNaN:0x1"))]);
    assert_eq!(tokens("-NaN::"), vec![Ok(Token::Float("-NaN:")), Ok(Token::Colon)]);
    assert_eq!(tokens("-sNaN"), vec![Ok(Token::Integer("-sNaN"))]);
    assert_eq!(tokens("-Infinity"), vec![Ok(Token::Float("-Infinity"))]);
    // The keywords count only where the number begins.
    assert_eq!(tokens("1Inf"), vec![Ok(Token::Integer("1Inf"))]);
    assert_eq!(tokens("0NaN:3"),
               vec![Ok(Token::Integer("0NaN")), Ok(Token::Colon), Ok(Token::Integer("3"))]);
    // Without a sign they are words.
    assert_eq!(tokens("NaN Inf"), vec![Ok(Token::Identifier("NaN")), Ok(Token::Identifier("Inf"))]);
}

#[test]
fn value_numbers_in_range() {
    assert_eq!(VALUE_NUMBER_LIMIT, 2147483647);
    assert_eq!(tokens("v2147483646"), vec![Ok(Token::Value(Value::Direct(2147483646)))]);
    assert_eq!(tokens("v2147483647"), vec![Ok(Token::Identifier("v2147483647"))]);
    assert_eq!(tokens("vx2147483646"), vec![Ok(Token::Value(Value::Table(2147483646)))]);
    assert_eq!(tokens("vx2147483647"), vec![Ok(Token::Identifier("vx2147483647"))]);
    assert_eq!(Value::direct_with_number(2147483646), Some(Value::Direct(2147483646)));
    assert_eq!(Value::direct_with_number(2147483647), None);
    assert_eq!(Value::table_with_number(7), Some(Value::Table(7)));
    assert_eq!(Value::table_with_number(4294967295), None);
    assert_eq!(Value::Table(7).number(), 7);
    assert_eq!(Value::Direct(9).number(), 9);
}

#[test]
fn direct_and_table_values_differ() {
    assert_ne!(Value::direct_with_number(3), Value::table_with_number(3));
    assert_ne!(tokens("v3"), tokens("vx3"));
}

#[test]
fn block_numbers_in_range() {
    assert_eq!(EBB_NUMBER_LIMIT, 4294967295);
    assert_eq!(tokens("ebb4294967294"), vec![Ok(Token::Ebb(Ebb { number: 4294967294 }))]);
    assert_eq!(tokens("ebb4294967295"), vec![Ok(Token::Identifier("ebb4294967295"))]);
    assert_eq!(tokens("ebb4294967296"), vec![Ok(Token::Identifier("ebb4294967296"))]);
    assert_eq!(Ebb::with_number(0), Some(Ebb { number: 0 }));
    assert_eq!(Ebb::with_number(4294967295), None);
}

#[test]
fn indexed_references() {
    assert_eq!(tokens("ss3 jt2 fn2 sig2 ss0"),
               vec![Ok(Token::StackSlot(3)),
                    Ok(Token::JumpTable(2)),
                    Ok(Token::FuncRef(2)),
                    Ok(Token::SigRef(2)),
                    Ok(Token::StackSlot(0))]);
    assert_eq!(tokens("ss4294967295"), vec![Ok(Token::StackSlot(4294967295))]);
    assert_eq!(tokens("sig4294967296"), vec![Ok(Token::Identifier("sig4294967296"))]);
    assert_eq!(tokens("jt02"), vec![Ok(Token::Identifier("jt02"))]);
    assert_eq!(tokens("SS3"), vec![Ok(Token::Identifier("SS3"))]);
    assert_eq!(tokens("fn"), vec![Ok(Token::Identifier("fn"))]);
}

#[test]
fn scalar_types() {
    let names = ["i8", "i16", "i32", "i64", "f32", "f64", "b1", "b8", "b16", "b32", "b64"];
    let lanes = [LaneType::I8,
                 LaneType::I16,
                 LaneType::I32,
                 LaneType::I64,
                 LaneType::F32,
                 LaneType::F64,
                 LaneType::B1,
                 LaneType::B8,
                 LaneType::B16,
                 LaneType::B32,
                 LaneType::B64];
    for i in 0..names.len() {
        assert_eq!(tokens(names[i]), vec![Ok(Token::Type(Type { lane: lanes[i], lanes: 1 }))]);
    }
    assert_eq!(tokens("i7 f16 b2 i128 u32"),
               vec![Ok(Token::Identifier("i7")),
                    Ok(Token::Identifier("f16")),
                    Ok(Token::Identifier("b2")),
                    Ok(Token::Identifier("i128")),
                    Ok(Token::Identifier("u32"))]);
}

#[test]
fn vector_types() {
    assert_eq!(tokens("i32x4"), vec![Ok(Token::Type(Type { lane: LaneType::I32, lanes: 4 }))]);
    assert_eq!(tokens("b1x2"), vec![Ok(vector(LaneType::B1, 2))]);
    assert_eq!(tokens("f64x256"), vec![Ok(Token::Type(Type { lane: LaneType::F64, lanes: 256 }))]);
    assert_eq!(tokens("i8x1"), vec![Ok(Token::Type(Type::scalar(LaneType::I8)))]);
    assert_eq!(tokens("f64x512"), vec![Ok(Token::Identifier("f64x512"))]);
    assert_eq!(tokens("i32x0"), vec![Ok(Token::Identifier("i32x0"))]);
    assert_eq!(tokens("i32x3"), vec![Ok(Token::Identifier("i32x3"))]);
    assert_eq!(tokens("i32x65535"), vec![Ok(Token::Identifier("i32x65535"))]);
    assert_eq!(tokens("i32x65536"), vec![Ok(Token::Identifier("i32x65536"))]);
    assert_eq!(tokens("i32x04"), vec![Ok(Token::Identifier("i32x04"))]);
    assert_eq!(tokens("i7x4"), vec![Ok(Token::Identifier("i7x4"))]);
    assert_eq!(tokens("x4"), vec![Ok(Token::Identifier("x4"))]);
    assert_eq!(tokens("i32x"), vec![Ok(Token::Identifier("i32x"))]);
}

#[test]
fn lanes_multiply() {
    let quad = Type::scalar(LaneType::I32).by_lanes(4).unwrap();
    assert_eq!(quad, Type { lane: LaneType::I32, lanes: 4 });
    assert_eq!(quad.by_lanes(2), Some(Type { lane: LaneType::I32, lanes: 8 }));
    assert_eq!(quad.by_lanes(64), Some(Type { lane: LaneType::I32, lanes: 256 }));
    assert_eq!(quad.by_lanes(128), None);
    assert_eq!(quad.by_lanes(0), None);
    assert_eq!(quad.by_lanes(3), None);
    assert_eq!(quad.by_lanes(65535), None);
    assert_eq!(Type::scalar(LaneType::B8).by_lanes(1), Some(Type::scalar(LaneType::B8)));
}

#[test]
fn resolve_words() {
    assert_eq!(Lexer::resolve_word("v0"), Token::Value(Value::Direct(0)));
    assert_eq!(Lexer::resolve_word("vx1"), Token::Value(Value::Table(1)));
    assert_eq!(Lexer::resolve_word("v00"), Token::Identifier("v00"));
    assert_eq!(Lexer::resolve_word("i32x4"), Token::Type(Type { lane: LaneType::I32, lanes: 4 }));
    assert_eq!(Lexer::resolve_word("iadd"), Token::Identifier("iadd"));
    assert_eq!(Lexer::resolve_word(""), Token::Identifier(""));
}

#[test]
fn entity_and_type_lookup() {
    assert_eq!(Lexer::numbered_entity(&['v'], 5), Some(Token::Value(Value::Direct(5))));
    assert_eq!(Lexer::numbered_entity(&['v', 'x'], 5), Some(Token::Value(Value::Table(5))));
    assert_eq!(Lexer::numbered_entity(&['e', 'b', 'b'], 5), Some(Token::Ebb(Ebb { number: 5 })));
    assert_eq!(Lexer::numbered_entity(&['v'], 4294967295), None);
    assert_eq!(Lexer::numbered_entity(&['i', 'n', 's', 't'], 5), None);
    assert_eq!(Lexer::numbered_entity(&[], 5), None);
    let word: Vec<char> = "b8x16".chars().collect();
    assert_eq!(Lexer::value_type(&word, &word[0..3], 16),
               Some(Token::Type(Type { lane: LaneType::B8, lanes: 16 })));
    let word: Vec<char> = "b8".chars().collect();
    assert_eq!(Lexer::value_type(&word, &word[0..1], 8), Some(Token::Type(Type::scalar(LaneType::B8))));
    assert_eq!(Lexer::value_type(&word, &word[0..1], 9), Some(Token::Type(Type::scalar(LaneType::B8))));
    let word: Vec<char> = "b9".chars().collect();
    assert_eq!(Lexer::value_type(&word, &word[0..1], 9), None);
}

#[test]
fn split_names() {
    assert_eq!(split_entity_name("x4294967295"), Some(("x", 4294967295)));
    assert_eq!(split_entity_name("x4294967296"), None);
    assert_eq!(split_entity_name("x99999999999999999999999"), None);
    assert_eq!(split_entity_name("0"), Some(("", 0)));
    assert_eq!(split_entity_name("00"), None);
    assert_eq!(split_entity_name("x10"), Some(("x", 10)));
    assert_eq!(split_entity_name("a1b2"), Some(("a1b", 2)));
    assert_eq!(split_entity_name("\u{e9}12"), Some(("\u{e9}", 12)));
    assert_eq!(split_entity_name("x\u{663}"), None);
    assert_eq!(trailing_digits("123"), 3);
    assert_eq!(trailing_digits("x\u{663}"), 0);
    let name = ['e', 'b', 'b', '4', '2'];
    assert_eq!(split_entity_chars(&name), Some((&name[0..3], 42)));
    assert_eq!(split_entity_chars(&name[0..3]), None);
}

#[test]
fn invalid_characters() {
    assert_eq!(tokens("#"), vec![Err(Error::InvalidChar)]);
    assert_eq!(tokens("_x"), vec![Err(Error::InvalidChar), Ok(Token::Identifier("x"))]);
    assert_eq!(tokens("x_1 y"), vec![Ok(Token::Identifier("x_1")), Ok(Token::Identifier("y"))]);
    assert_eq!(tokens("1#2"),
               vec![Ok(Token::Integer("1")), Err(Error::InvalidChar), Ok(Token::Integer("2"))]);
    assert_eq!(tokens("\u{a7}\u{0}"), vec![Err(Error::InvalidChar), Err(Error::InvalidChar)]);
    let mut lex = Lexer::new("a\n\n @ b");
    assert_eq!(lex.next(), tok(Token::Identifier("a"), 1));
    assert_eq!(lex.next(), invalid(3));
    assert_eq!(lex.next(), tok(Token::Identifier("b"), 3));
    assert_eq!(lex.next(), None);
}

#[test]
fn characters_beyond_ascii() {
    assert_eq!(tokens("\u{e9}t\u{e9}1 \u{fc}"),
               vec![Ok(Token::Identifier("\u{e9}t\u{e9}1")), Ok(Token::Identifier("\u{fc}"))]);
    // A no-break space and an em space separate tokens.
    assert_eq!(tokens("v1\u{a0}v2\u{2003}v3"),
               vec![Ok(Token::Value(Value::Direct(1))),
                    Ok(Token::Value(Value::Direct(2))),
                    Ok(Token::Value(Value::Direct(3)))]);
    // A digit of another script begins nothing, and continues a word or a number.
    assert_eq!(tokens("\u{663}"), vec![Err(Error::InvalidChar)]);
    assert_eq!(tokens("a\u{663} 1\u{663}"),
               vec![Ok(Token::Identifier("a\u{663}")), Ok(Token::Integer("1\u{663}"))]);
    assert_eq!(tokens("; caf\u{e9} \u{1f49d}\nx"),
               vec![Ok(Token::Comment("; caf\u{e9} \u{1f49d}")), Ok(Token::Identifier("x"))]);
}

#[test]
fn line_numbers() {
    let mut lex = Lexer::new("\n\n;a\n\n\n;b\nx ; c\n#");
    assert_eq!(lex.next(), tok(Token::Comment(";a"), 3));
    assert_eq!(lex.next(), tok(Token::Comment(";b"), 6));
    assert_eq!(lex.next(), tok(Token::Identifier("x"), 7));
    assert_eq!(lex.next(), tok(Token::Comment("; c"), 7));
    assert_eq!(lex.next(), invalid(8));
    assert_eq!(lex.next(), None);
}

#[test]
fn rest_of_line_takes_raw_text() {
    let mut lex = Lexer::new("test verifier  \nebb0:\n\nlast");
    assert_eq!(lex.next(), tok(Token::Identifier("test"), 1));
    assert_eq!(lex.rest_of_line(), " verifier  ");
    // At a newline nothing is left of the line.
    assert_eq!(lex.rest_of_line(), "");
    assert_eq!(lex.next(), tok(Token::Ebb(Ebb { number: 0 }), 2));
    assert_eq!(lex.rest_of_line(), ":");
    assert_eq!(lex.next(), tok(Token::Identifier("last"), 4));
    assert_eq!(lex.rest_of_line(), "");
    assert_eq!(lex.next(), None);
}

#[test]
fn rest_of_line_at_the_start() {
    let mut lex = Lexer::new("  #!raw text; (no tokens)\n}");
    assert_eq!(lex.rest_of_line(), "  #!raw text; (no tokens)");
    assert_eq!(lex.next(), tok(Token::RBrace, 2));
    assert_eq!(lex.next(), None);
}

#[test]
fn single_steps() {
    let mut lex = Lexer::new("a\nb");
    assert_eq!(lex.loc(), Location { line_number: 1 });
    assert!(lex.looking_at("a\nb"));
    assert!(lex.looking_at(""));
    assert!(!lex.looking_at("a\nbc"));
    assert!(!lex.looking_at("b"));
    assert_eq!(lex.next_ch(), Some('\n'));
    assert_eq!(lex.loc(), Location { line_number: 1 });
    assert_eq!(lex.next_ch(), Some('b'));
    assert_eq!(lex.loc(), Location { line_number: 2 });
    assert!(lex.looking_at("b"));
    assert_eq!(lex.next_ch(), None);
    assert_eq!(lex.next_ch(), None);
    assert_eq!(lex.loc(), Location { line_number: 2 });
    assert!(lex.looking_at(""));
    assert!(!lex.looking_at("b"));
}

#[test]
fn scan_pieces() {
    let mut lex = Lexer::new("->x 12 ; done");
    assert_eq!(Some(lex.scan_chars(2, Token::Arrow)), tok(Token::Arrow, 1));
    assert_eq!(Some(lex.scan_char(Token::Dot)), tok(Token::Dot, 1));
    assert_eq!(Some(lex.scan_number()), tok(Token::Integer(""), 1));
    assert_eq!(lex.next_ch(), Some('1'));
    assert_eq!(Some(lex.scan_number()), tok(Token::Integer("12"), 1));
    assert_eq!(Some(lex.scan_comment()), tok(Token::Comment(" ; done"), 1));
    assert_eq!(lex.next(), None);
    let mut lex = Lexer::new("_a1 b");
    assert_eq!(Some(lex.scan_word()), tok(Token::Identifier("_a1"), 1));
}

#[test]
fn text_is_taken_at_character_boundaries() {
    let mut lex = Lexer::new("\u{e9}\u{4eac}1 ;\u{1f49d} \u{e9}\n\u{a0}-\u{e9}.5\u{2003}x");
    assert_eq!(lex.next(), tok(Token::Identifier("\u{e9}\u{4eac}1"), 1));
    assert_eq!(lex.next(), tok(Token::Comment(";\u{1f49d} \u{e9}"), 1));
    assert_eq!(lex.next(), tok(Token::Float("-\u{e9}.5"), 2));
    assert_eq!(lex.next(), tok(Token::Identifier("x"), 2));
    assert_eq!(lex.next(), None);
    let mut lex = Lexer::new("a \u{1f49d}\u{e9} b\nc");
    assert_eq!(lex.next(), tok(Token::Identifier("a"), 1));
    assert_eq!(lex.rest_of_line(), " \u{1f49d}\u{e9} b");
    assert_eq!(lex.next(), tok(Token::Identifier("c"), 2));
}
