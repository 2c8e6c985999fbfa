//! A lexical scanner for the textual form of a compiler intermediate
//! representation: source text in, located tokens out.

pub mod charclass;
pub mod entities;
pub mod grammar;
pub mod laws;
pub mod lexer;
pub mod location;
pub mod names;
pub mod text;
pub mod token;
pub mod types;
