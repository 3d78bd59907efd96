//! Core of a command-line shell: a tokenizer for quoted words and control
//! operators, a recursive-descent grammar that builds an expression tree with
//! sequencing, boolean chaining and subshell grouping, and an evaluator that
//! decides, step by step, which external action runs next.

pub mod eval;
pub mod parser;
pub mod tree;
