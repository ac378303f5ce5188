//! A tree-walking interpreter for a small dynamically typed scripting
//! language with lexical scoping, closures and single-inheritance classes.
//!
//! A source text goes through four stages. The scanner reads characters
//! into tokens, the parser reads tokens into a syntax tree, the resolver
//! binds every use of a local variable to its declaration, and the
//! interpreter runs the tree. `runner::run` does all four.
//!
//! What each stage computes is defined by mathematical functions, and the
//! stage is proved to compute just that:
//!
//! | stage       | definition  | program       |
//! |-------------|-------------|---------------|
//! | scanner     | `scanner`   | `scanner`     |
//! | parser      | `grammar`   | `parser`      |
//! | resolver    | `resolver`  | `resolver`    |
//! | interpreter | `semantics` | `interpreter` |
//!
//! The module `equality` holds both for `==`.
//!
//! The modules `budget`, `laws`, `mirror`, `numbering`, `progress`,
//! `readings` and `stability` hold what is proved of the definitions
//! themselves.
//!
//! Numbers are exact decimals; their arithmetic is that of `rust_decimal`.
//! Environments and instances live on a heap and are referred to by
//! handles, so that closures and aliases share them. The interpreter does
//! no input or output: what a program prints is collected, and the host
//! writes it out.

pub mod ast;
pub mod ast_printer;
pub mod budget;
pub mod environment;
pub mod equality;
pub mod grammar;
pub mod interpreter;
pub mod laws;
pub mod mirror;
pub mod native;
pub mod number;
pub mod numbering;
pub mod parser;
pub mod progress;
pub mod readings;
pub mod resolver;
pub mod runner;
pub mod scanner;
pub mod semantics;
pub mod stability;
pub mod table;
pub mod text;
pub mod tokens;
