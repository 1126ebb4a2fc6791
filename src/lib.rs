//! Epilang: a small dynamically typed expression language with first-class
//! delimited continuations (`callcc k in { .. }` / `throw k v`), exceptions
//! (`try { .. } catch e { .. }`), functions, mutable variables and shared
//! lists. The library parses a token stream into an expression tree, with
//! variables resolved to frame depths, and evaluates trees on a stack of
//! cells; the evaluator is proved to follow the semantics in `semantics`,
//! and `laws` holds what is proved of that semantics.
pub mod expression;
pub mod token;
pub mod value;
pub mod semantics;
pub mod operators;
pub mod laws;
pub mod parser;
pub mod session;
