//! A lexical scanner for a small dynamically-typed scripting language.
//!
//! The scanner turns source text into an ordered sequence of classified
//! tokens that always ends in a single `Eof`, collecting every lexical error
//! on the way instead of stopping at the first one.
use vstd::prelude::*;

pub mod laws;
pub mod lexer;
pub mod lox;
pub mod token;

pub use lexer::Lexer;
pub use lox::Lox;
pub use token::{LexError, LexErrorKind, Token, TokenType};
