//! Lexical front end for a small language that describes HTTP-like requests.
//!
//! The lexer turns raw source bytes into a sequence of typed, source-located
//! tokens, including template literals with embedded `${...}` interpolations.
//! Whitespace and comments are consumed silently; every fatal condition is
//! reported as a structured diagnostic value that carries a byte span into
//! the original source.

pub mod keyword;
pub mod laws;
pub mod lexer;
pub mod model;
pub mod number;
pub mod token;
