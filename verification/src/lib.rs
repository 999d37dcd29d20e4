//! The front end of the Monkey scripting language: a lexer that turns source
//! text into tokens, and a precedence-climbing parser that builds the syntax
//! tree from them.
//!
//! - `token`: the kinds of token, the token, and the keyword table.
//! - `lexer`: what the tokens of a text are, and the lexer that hands them
//!   out one at a time.
//! - `ast`: the nodes of the syntax tree, each with its string form.
//! - `precedence`: the binding powers of the operators.
//! - `error`: the diagnostics of the parser.
//! - `grammar`: what the parser builds from a sequence of tokens.
//! - `parser`: the parser.
//! - `laws`: what holds of every parse.
//! - `text`: characters and decimal numbers.

pub mod ast;
pub mod error;
pub mod grammar;
pub mod laws;
pub mod lexer;
pub mod parser;
pub mod precedence;
pub mod text;
pub mod token;

pub use lexer::Lexer;
pub use parser::Parser;
