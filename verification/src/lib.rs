//! A verified compiler for a tiny source language: single function
//! definitions with typed parameters and one additive return expression are
//! translated into a Lisp-style definition form.
//!
//! The pipeline has three stages: the lexer turns source text into tokens,
//! the parser turns source text into an abstract syntax tree, and the code
//! generator renders the tree as output text.

pub mod codegen;
pub mod lexer;
pub mod parser;
pub mod pipeline;
