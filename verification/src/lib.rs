//! A small dynamically-typed scripting language: a scanner that turns source
//! text into tokens, a recursive-descent parser that turns tokens into a
//! syntax tree, and a tree-walking evaluator over a flat variable environment.
//!
//! Every function is verified against a mathematical model of what it
//! computes. Floating-point arithmetic is never performed here: numbers are
//! carried as IEEE 754 bit patterns and every arithmetic result is looked up
//! in a table of answers that the embedding program fills in.

pub mod error_format;
pub mod expr;
pub mod front_end;
pub mod number;
pub mod parser;
pub mod scanner;
pub mod text;
pub mod theorems;
pub mod tree_interpreter;
