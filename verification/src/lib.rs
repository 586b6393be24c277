//! Core of a tree-walking interpreter for a small, dynamically typed,
//! expression-oriented language: an operator-precedence parser, a closed
//! runtime value model, and a recursive evaluator with lexical scoping,
//! first-class functions, short-circuit error propagation and a fixed set
//! of built-in functions.

pub mod ast;
pub mod builtin;
pub mod environment;
pub mod equality;
pub mod evaluator;
pub mod laws;
pub mod lexer;
pub mod object;
pub mod parser;
pub mod text;
