//! Hindley-Milner type inference for a small lambda calculus with
//! numbers, functions and polymorphic `let`.
pub mod ast;
pub mod infer;
pub mod laws;
pub mod scheme;
pub mod types;
pub mod unify;
