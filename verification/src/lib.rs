//! The syntactic front end of a compiler for a subset of C: a recursive-descent parser
//! that turns a sequence of tokens into a syntax tree, builds the C types of what is
//! declared on the way, with the layout of structs, and keeps track of the typedefs and
//! struct tags that are in scope.
//!
//! `grammar` says what the tree of a token sequence is; `parse`, `stmt`, `decl` and
//! `expr` hold the parser, each function with the proof that it computes what the
//! grammar says; `laws`, `progress` and `typing` hold what follows for every input.

pub mod ast;
pub mod decl;
pub mod env;
pub mod error;
pub mod expr;
pub mod grammar;
pub mod laws;
pub mod parse;
pub mod progress;
pub mod stmt;
pub mod token;
pub mod types;
pub mod typing;
