//! A front end for a small JavaScript dialect: source text is turned into
//! tokens by [`lexer::Lexer`], and tokens into a syntax tree by
//! [`parser::Parser`]. Errors are values: [`lexer::LexError`] and
//! [`parser::ParseError`], with [`diagnostics`] to show where they are.
//!
//! [`lexical`] states the lexical grammar and [`grammar`] the syntax, over
//! the tree of [`syntax`] (the mathematical view of [`ast`]); the lexer and
//! the parser are proved to compute exactly what they state.
pub mod lexical;
pub mod lexer;
pub mod ast;
pub mod parser;
pub mod diagnostics;
pub mod syntax;
pub mod grammar;
