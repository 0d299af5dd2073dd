//! Scanner and parser for a small class-based teaching language.
mod text;
pub mod token;
pub mod lexical;
pub mod scanner;
pub mod ast;
pub mod grammar;
pub mod parser;
