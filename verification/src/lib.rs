//! Sutra: a small Lisp-like scripting language for narrative game state.
//!
//! The crate holds the language's syntactic core: the abstract syntax tree,
//! the reader, the macro system, the world-state store, arity validation,
//! error values and the source-snippet layout used by diagnostics.
use vstd::prelude::*;

pub mod text;
pub mod span;
pub mod errors;
pub mod ast;
pub mod std_macros;
pub mod macros;
pub mod macro_errors;
pub mod world;
pub mod repl;
pub mod output;
pub mod lexer;
pub mod parser;
pub mod loader;
pub mod arity;
pub mod diagnostics;
pub mod engine;
pub mod eval_error;
pub mod cst;
pub mod discovery;
pub mod grammar;
pub mod summary;
pub mod expander;
pub mod pipeline;
pub mod pretty;
pub mod registry;
pub mod evaluator;

verus! {

} // verus!
