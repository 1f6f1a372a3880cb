//! A lexer for ECMAScript/JSX-like source text, and a search for a short
//! token sequence inside a longer tokenized document.
use vstd::prelude::*;

pub mod lexer;
pub mod matcher;
pub mod scan;
pub mod token;

pub use lexer::{lex, LexerToken, Loc, Range};
pub use matcher::{find, find_ranges, PatternError};
pub use token::Token;

verus! {

} // verus!
