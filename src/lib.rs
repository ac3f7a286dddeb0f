//! Front end and tree-walking evaluator for a small dynamically typed
//! scripting language: characters are scanned into tokens, tokens parsed into
//! statements, and statements run in order against one flat variable table.
//!
//! Floating-point work (reading number text, arithmetic, decimal rendering) is
//! supplied by the caller as closures; numbers travel as `f32` bit patterns.
pub mod environment;
pub mod eval;
pub mod expr;
pub mod interpret;
pub mod parse;
pub mod scanner;
pub mod statement;
pub mod token;
pub mod value;
