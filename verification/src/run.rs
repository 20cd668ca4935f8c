use vstd::prelude::*;

use crate::eval::{deep_to_exp_with_fuel, eval_with_fuel, opt_deep, opt_exp};
use crate::exp::Env;
use crate::model::SpecEnv;
use crate::parse::{parse, parse_spec};
use crate::print::{print, printed};
use crate::semantics::{eval_within, max_fuel, read_back_within};

verus! {

/// The text that a program prints: its value, read back and written out;
/// `None` where the evaluation or the reading back does not end within the
/// budget of the interpreter.
pub open spec fn program_output(text: Seq<char>) -> Option<Seq<char>> {
    match eval_within(max_fuel(), SpecEnv::Empty, parse_spec(text)) {
        Some(deep) => match read_back_within(max_fuel(), deep) {
            Some(exp) => Some(printed(exp)),
            None => None,
        },
        None => None,
    }
}

/// Runs a program: parses it, evaluates it in the empty environment, reads
/// the value back and writes it out.
pub fn interpret(text: &str) -> (output: Option<String>)
    ensures
        (match output {
            Some(s) => program_output(text@) == Some(s@),
            None => program_output(text@) is None,
        }),
{
    let exp = parse(text);
    let deep = match eval_with_fuel(u64::MAX, Env::new(), exp) {
        Some(deep) => deep,
        None => return None,
    };
    let exp = match deep_to_exp_with_fuel(u64::MAX, deep) {
        Some(exp) => exp,
        None => return None,
    };
    Some(print(exp))
}

} // verus!
