//! A small domain-specific language that describes a time-varying numeric
//! signal as a mathematical expression, evaluated once per output sample.
//!
//! The core is the expression language: its grammar (`token` and the
//! parsers in `expression`, `function`, `header`), its syntax tree
//! (`expression`), the scoped evaluation context (`context`), the
//! function and builtin model (`function`), and the evaluator (`eval`).
//! A whole source file - metadata header plus program body - is handled
//! by `file` and `body`.
//!
//! Numeric values are IEEE-754 doubles carried as their 64-bit encodings;
//! `num` holds the encoding-level operations and the trusted soft-float
//! primitives behind them.

pub mod body;
pub mod context;
pub mod eval;
pub mod expression;
pub mod file;
pub mod function;
pub mod header;
pub mod num;
pub mod token;
