//! A tree-walking interpreter for the Lox language, verified with Verus.
//!
//! Source text is scanned into tokens (`scanner`), parsed into a syntax tree
//! (`grammar` says what the tree is, `parser` builds it), resolved so that
//! every variable use knows how many scopes away its binding lives
//! (`resolver`), and then run by a machine that walks the tree one step at a
//! time (`semantics` says what a step does, `interpreter` does it). The
//! machine hands every effect that it cannot perform itself to its host:
//! printing, the clock, arithmetic on doubles.
//!
//! What holds of all programs is proved in `laws` (the order of evaluation,
//! initializers, `super`, determinism), `soundness` (no reference ever
//! dangles), `progress` (a parse moves forward), `environment_tree` (scopes
//! and closures) and `scanner` (no text is lost).
pub mod ast_printer;
pub mod environment_tree;
pub mod expr;
pub mod grammar;
pub mod interpreter;
pub mod laws;
pub mod lox_callable;
pub mod lox_instance;
pub mod machine;
pub mod number;
pub mod parser;
pub mod program;
pub mod progress;
pub mod report;
pub mod resolution;
pub mod resolver;
pub mod scanner;
pub mod semantics;
pub mod soundness;
pub mod stmt;
pub mod table;
pub mod text;
pub mod token;
pub mod value;

pub use report::{error, error_with_token, report, runtime_error};
