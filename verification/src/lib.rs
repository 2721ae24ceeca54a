//! A tree-walking interpreter for a small dynamically typed scripting
//! language: variables, arithmetic, boolean logic, control flow, blocks,
//! first-class functions with closures, and `print`.
//!
//! A source text passes through three stages:
//!
//! - [`scanner`] turns the text into tokens ([`token`], [`reserved`]);
//! - [`parser`] turns the tokens into a syntax tree ([`expr`], [`stmt`]),
//!   as [`grammar`] says, and goes on after a declaration that fails;
//! - [`interpreter`] runs the tree, as [`semantics`] says, over the
//!   values of [`value`] and [`number`] in the scopes of [`environment`].
//!
//! [`laws`] holds what is true of every program, [`closures`] what calls
//! of a counter yield, and [`pipeline`] what the three stages together
//! make of a printed literal; [`ast`] prints expressions for diagnostics.

pub mod ast;
pub mod closures;
pub mod environment;
pub mod equality;
pub mod errors;
pub mod expr;
pub mod grammar;
pub mod interpreter;
pub mod laws;
pub mod number;
pub mod parser;
pub mod pipeline;
pub mod reserved;
pub mod scanner;
pub mod semantics;
pub mod stmt;
pub mod text;
pub mod token;
pub mod value;
