//! A small expression language: a parser that turns text into a tree of
//! commands, blocks and procedure literals, and an evaluator that walks the
//! tree against a chain of scopes, with built-in procedures for binding,
//! lookup and arithmetic. Beside them stands a store of places, objects with
//! named attributes that may form a graph.
//!
//! `grammar` and `semantics` say what parsing and evaluation mean; `parser`
//! and `interpreter` do them, and `laws` holds what follows for every
//! machine and every expression.

pub mod arith;
pub mod assoc;
pub mod descent;
pub mod grammar;
pub mod ids;
pub mod interpreter;
pub mod laws;
pub mod model;
pub mod parser;
pub mod placemodel;
pub mod primitive;
pub mod scanner;
pub mod semantics;
