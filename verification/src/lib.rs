//! Syntactic front end for a small statically typed functional language:
//! the abstract syntax trees for types and expressions, a precedence-aware
//! printer that renders them back to surface syntax, a shadowing-aware
//! substitution engine, a lexer for the surface token set, and the
//! recursive-descent parsers that rebuild the trees from a token stream.
//!
//! All tree algorithms here are structural recursions: their stack depth is
//! proportional to the nesting depth of the tree or of the parenthesization
//! of the input, so callers feeding adversarially deep input should bound
//! its depth first.

pub mod ast;
pub mod lexer;
pub mod parser;
pub mod round_trip;
