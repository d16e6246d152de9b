//! A scanner, parser and tree-walking evaluator for a small expression language.
//!
//! Source text becomes tokens (`scanner`), tokens become expression and statement trees
//! (`parser`, `expr`, `statement`), and trees are evaluated against one flat environment
//! (`enviro`, `interpreter`). Each stage states its result exactly, in terms of the spec
//! functions beside it.
//!
//! Numbers are IEEE-754 doubles held as their 64-bit patterns (`number`). The library compares,
//! negates and tests them for zero on the pattern itself; reading a number literal, the four
//! arithmetic operations and printing a number are supplied by the caller as closures. Each
//! function that takes such a closure states its result for every closure that computes a
//! function: whatever that function is, the result is the one the spec functions give for it.
pub mod enviro;
pub mod expr;
pub mod interpreter;
pub mod laws;
pub mod literals;
pub mod messages;
pub mod number;
pub mod parser;
pub mod scanner;
pub mod statement;
pub mod text;
