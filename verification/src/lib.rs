//! A parser front-end for a small subset of the Avro IDL: it recognizes a
//! `protocol <name> { ... }` declaration (with a whitespace-only body) or a
//! bare block comment, and turns parse failures into source-located
//! diagnostics.

pub mod ast;
pub mod error;
pub mod grammar;
pub mod laws;
pub mod lex;
pub mod parser;
pub mod report;
