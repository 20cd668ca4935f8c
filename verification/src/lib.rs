//! An interpreter for a small language of symbols, pairs, functions and
//! pattern matching: parsing, lazy evaluation and printing.

pub mod cli;
pub mod debug;
pub mod env;
pub mod eval;
pub mod exp;
pub mod grammar;
pub mod model;
pub mod parse;
pub mod print;
pub mod reparse;
pub mod roundtrip;
pub mod run;
pub mod scope;
pub mod semantics;
pub mod symbols;
pub mod text;

pub use cli::Cli;
pub use eval::{deep_to_exp, deep_to_exp_with_fuel, eval, eval_with_fuel};
pub use exp::{Bexp, Data, Deep, Env, Error, Exp, Op, Side, Thunk};
pub use parse::parse;
pub use print::print;
pub use run::interpret;
