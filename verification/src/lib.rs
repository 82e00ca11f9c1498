//! Front end of a small interpreted language: a tokenizer that turns source
//! text into classified tokens, and a syntax tree model that renders every
//! node back into a canonical string.

pub mod ast;
pub mod lexer;

pub use lexer::lexer::{Lexer, LexerView};
pub use lexer::token::{KeyWords, Token, TokenView};
