//! A small markup front end: a lexer that turns a character stream into
//! run-length delimiter, text and whitespace tokens, and a recursive-descent
//! parser with one token of lookahead that builds a document tree of
//! headings, paragraphs, lists and inline constructs (bold, italic, code,
//! links, images).

pub mod cursor;
pub mod tokenizer;
pub mod ast;
pub mod grammar;
pub mod parser;
