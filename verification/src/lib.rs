//! The semantic core of a small, dynamically typed Lisp.
//!
//! * `lisp_parse` turns text into a tree of words and groups, and `to_ast`
//!   turns such a tree into an expression.
//! * `ast` holds the executable values, expressions and environments;
//!   `model` holds the mathematical model they are viewed into, over which
//!   every contract is stated.
//! * `semantics` says what an expression means, `eval` computes it, and
//!   `laws` holds what is proved of every evaluation; `default_env` holds
//!   the built-in functions and `equals` the equality they use.
//! * `host` is what the embedding program supplies: the reading of
//!   numerals, arithmetic and printing. Numbers are held by their bit
//!   pattern (`number`) and the library never computes with them.
//! * `compile` is a second backend that lowers the same token trees to
//!   assembly text.
//!
//! An evaluation that nests deeper than the budget it is given ends with
//! `EvalError::DepthExceeded`.

pub mod ast;
pub mod compile;
pub mod default_env;
pub mod equals;
pub mod eval;
pub mod host;
pub mod laws;
pub mod lisp_parse;
pub mod model;
pub mod number;
pub mod semantics;
pub mod to_ast;
