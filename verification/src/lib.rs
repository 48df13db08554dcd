//! A lexer for a small interpreted language: source text in, tokens out.

pub mod chars;
pub mod grammar;
pub mod keywords;
pub mod lexer;
pub mod stream;
pub mod text;
pub mod token;

pub use lexer::Lexer;
pub use token::Token;
