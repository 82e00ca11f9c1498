//! The token vocabulary and the scanner that produces it.

pub mod lexer;
pub mod stream;
pub mod token;
pub mod whitespace;
