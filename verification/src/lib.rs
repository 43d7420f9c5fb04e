//! Back end of a multi-target interface-definition-language compiler.
//!
//! The front end (lexing, parsing, name and type resolution) hands this
//! library a fully resolved abstract syntax tree. The library then
//! - checks which backend-specific attributes are legal on which node kinds,
//!   accumulating diagnostics without ever mutating the tree, and
//! - orchestrates the code-emitting traversals into one output artifact per
//!   source file, written idempotently (only when its content changed).

pub mod ast;
pub mod codegen;
pub mod compilation;
pub mod diagnostics;
pub mod pipeline;
pub mod validator;
