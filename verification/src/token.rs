//! Tokens, and tokens and errors with their place in the source.

use crate::entities::{Ebb, Value};
use crate::location::Location;
use crate::types::Type;
use vstd::prelude::*;

verus! {

/// A token returned from the `Lexer`.
///
/// Some variants hold a piece of the source text, so a `Token` lives no longer than the
/// source does.
#[derive(Debug, PartialEq, Eq, Clone, Copy)]
pub enum Token<'a> {
    /// A comment, from its `;` to the end of its line.
    Comment(&'a str),
    /// `(`
    LPar,
    /// `)`
    RPar,
    /// `{`
    LBrace,
    /// `}`
    RBrace,
    /// `,`
    Comma,
    /// `.`
    Dot,
    /// `:`
    Colon,
    /// `=`
    Equal,
    /// `->`
    Arrow,
    /// A floating point immediate, as written.
    Float(&'a str),
    /// An integer immediate, as written.
    Integer(&'a str),
    /// A value type: `i32`, `f32`, `b32x4`, ...
    Type(Type),
    /// A value: `v12`, `vx7`
    Value(Value),
    /// An extended basic block: `ebb3`
    Ebb(Ebb),
    /// A stack slot: `ss3`
    StackSlot(u32),
    /// A jump table: `jt2`
    JumpTable(u32),
    /// A function reference: `fn2`
    FuncRef(u32),
    /// A signature reference: `sig2`
    SigRef(u32),
    /// Any other word: an opcode, an enumerator, ...
    Identifier(&'a str),
}

/// What a token is, with the text it holds as a sequence of characters.
pub enum TokenView {
    Comment(Seq<char>),
    LPar,
    RPar,
    LBrace,
    RBrace,
    Comma,
    Dot,
    Colon,
    Equal,
    Arrow,
    Float(Seq<char>),
    Integer(Seq<char>),
    Type(Type),
    Value(Value),
    Ebb(Ebb),
    StackSlot(u32),
    JumpTable(u32),
    FuncRef(u32),
    SigRef(u32),
    Identifier(Seq<char>),
}

impl<'a> View for Token<'a> {
    type V = TokenView;

    open spec fn view(&self) -> TokenView {
        match *self {
            Token::Comment(text) => TokenView::Comment(text@),
            Token::LPar => TokenView::LPar,
            Token::RPar => TokenView::RPar,
            Token::LBrace => TokenView::LBrace,
            Token::RBrace => TokenView::RBrace,
            Token::Comma => TokenView::Comma,
            Token::Dot => TokenView::Dot,
            Token::Colon => TokenView::Colon,
            Token::Equal => TokenView::Equal,
            Token::Arrow => TokenView::Arrow,
            Token::Float(text) => TokenView::Float(text@),
            Token::Integer(text) => TokenView::Integer(text@),
            Token::Type(ty) => TokenView::Type(ty),
            Token::Value(value) => TokenView::Value(value),
            Token::Ebb(ebb) => TokenView::Ebb(ebb),
            Token::StackSlot(number) => TokenView::StackSlot(number),
            Token::JumpTable(number) => TokenView::JumpTable(number),
            Token::FuncRef(number) => TokenView::FuncRef(number),
            Token::SigRef(number) => TokenView::SigRef(number),
            Token::Identifier(text) => TokenView::Identifier(text@),
        }
    }
}

impl TokenView {
    /// The entity and type references that a token holds are in range.
    pub open spec fn wf(self) -> bool {
        match self {
            TokenView::Type(ty) => ty.wf(),
            TokenView::Value(value) => value.wf(),
            TokenView::Ebb(ebb) => ebb.wf(),
            _ => true,
        }
    }
}

/// A `Token` with an associated location.
#[derive(Debug, PartialEq, Eq)]
pub struct LocatedToken<'a> {
    pub token: Token<'a>,
    pub location: Location,
}

/// An error from the lexical analysis.
#[derive(Debug, Clone, Copy, PartialEq, Eq, Structural)]
pub enum Error {
    /// A character that begins no token.
    InvalidChar,
}

/// An `Error` with an associated location.
#[derive(Debug, Clone, Copy, PartialEq, Eq, Structural)]
pub struct LocatedError {
    pub error: Error,
    pub location: Location,
}

/// Wrap up a `Token` with the given location.
pub fn token<'a>(tok: Token<'a>, loc: Location) -> (r: Result<LocatedToken<'a>, LocatedError>)
    ensures
        r matches Ok(located) && located.token == tok && located.location == loc,
{
    Ok(LocatedToken { token: tok, location: loc })
}

/// Wrap up an `Error` with the given location.
pub fn error<'a>(err: Error, loc: Location) -> (r: Result<LocatedToken<'a>, LocatedError>)
    ensures
        r == Err::<LocatedToken<'a>, LocatedError>(LocatedError { error: err, location: loc }),
{
    Err(LocatedError { error: err, location: loc })
}

} // verus!
