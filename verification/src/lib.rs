//! Conlang: an expression-oriented programming language.
//!
//! This crate holds the language's string tools, its tokens and lexer,
//! the scope bookkeeping of its resolver and interpreter, and its type
//! checker's constant evaluation and type inference.
pub mod constr;
pub mod text;
pub mod token;
pub mod lexer;
pub mod ast;
pub mod loc_order;
pub mod ast_text;
pub mod typeck;
pub mod infer;
pub mod interpreter;
pub mod format;
pub mod printer;
pub mod resolver;
pub mod combinator;
pub mod parse_error;
