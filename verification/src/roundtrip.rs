use vstd::prelude::*;

use crate::model::{SpecData, SpecDeep, SpecEnv, SpecExp};
use crate::parse::parse_spec;
use crate::print::printed;
use crate::reparse::{height, is_name, is_plain, lemma_parse_printed_plain};
use crate::run::program_output;
use crate::semantics::{
    eval_within, evaluates_to, lazy_within, lemma_eval_fuel_monotone, lemma_evaluates_to_unique,
    max_fuel, read_back_within, reads_back_to, terminates, wrap_within,
};
use crate::symbols::{deep_syms_named, lemma_eval_named, lemma_parse_named};

verus! {

// What a program prints is a value read back: symbols, pairs and functions.
// Here is shown that the interpreter gives back the printed form of such a
// value unchanged, where the functions are plain.

/// An expression that evaluates to itself in the empty environment:
/// symbols, pairs of such, and plain functions.
pub open spec fn is_value(e: SpecExp) -> bool
    decreases e,
{
    match e {
        SpecExp::Sym(s) => is_name(s),
        SpecExp::Cons(l, r) => is_value(*l) && is_value(*r),
        SpecExp::Fun(l, r) => is_plain(*l) && is_plain(*r),
        _ => false,
    }
}

/// What a value evaluates to in the empty environment.
pub open spec fn value_of(e: SpecExp) -> SpecDeep
    decreases e,
{
    match e {
        SpecExp::Cons(l, r) => SpecDeep::Cons(Box::new(value_of(*l)), Box::new(value_of(*r))),
        SpecExp::Fun(l, r) => SpecDeep::Fun(SpecEnv::Empty, l, r),
        SpecExp::Sym(s) => SpecDeep::Sym(s),
        _ => SpecDeep::Sym(Seq::empty()),
    }
}

/// A value evaluates in the empty environment to what it stands for.
pub proof fn lemma_value_eval(f: nat, e: SpecExp)
    requires
        is_value(e),
        f >= 2 * height(e) + 2,
    ensures
        eval_within(f, SpecEnv::Empty, e) == Some(value_of(e)),
    decreases e,
{
    match e {
        SpecExp::Cons(l, r) => {
            assert(height(*l) < height(e) && height(*r) < height(e));
            lemma_value_eval((f - 2) as nat, *l);
            lemma_value_eval((f - 2) as nat, *r);
        },
        _ => {},
    }
}

/// What a value stands for reads back as the value.
pub proof fn lemma_value_read_back(f: nat, e: SpecExp)
    requires
        is_value(e),
        f >= height(e) + 2,
    ensures
        read_back_within(f, value_of(e)) == Some(e),
    decreases e,
{
    match e {
        SpecExp::Cons(l, r) => {
            assert(height(*l) < height(e) && height(*r) < height(e));
            lemma_value_read_back((f - 1) as nat, *l);
            lemma_value_read_back((f - 1) as nat, *r);
            assert(read_back_within((f - 1) as nat, value_of(*l)) == Some(*l));
            assert(read_back_within((f - 1) as nat, value_of(*r)) == Some(*r));
        },
        SpecExp::Fun(l, r) => {
            assert(wrap_within((f - 1) as nat, SpecEnv::Empty, e) == Some(e));
        },
        _ => {},
    }
}

/// A value evaluates to what it stands for, which reads back as the value
/// itself.
pub proof fn lemma_value_evaluates(e: SpecExp)
    requires
        is_value(e),
    ensures
        evaluates_to(SpecEnv::Empty, e, value_of(e)),
        reads_back_to(value_of(e), e),
{
    lemma_value_eval(2 * height(e) + 2, e);
    lemma_value_read_back(height(e) + 2, e);
}

/// A value is plain.
proof fn lemma_value_plain(e: SpecExp)
    requires
        is_value(e),
    ensures
        is_plain(e),
    decreases e,
{
    match e {
        SpecExp::Cons(l, r) => {
            lemma_value_plain(*l);
            lemma_value_plain(*r);
        },
        _ => {},
    }
}

/// Running the printed form of a value prints it again: an output of the
/// interpreter that is a value is a fixed point of the interpreter.
pub proof fn lemma_printed_value_fixed_point(e: SpecExp)
    requires
        is_value(e),
        2 * height(e) + 2 <= max_fuel(),
    ensures
        parse_spec(printed(e)) == e,
        program_output(printed(e)) == Some(printed(e)),
{
    lemma_value_plain(e);
    lemma_parse_printed_plain(e);
    lemma_value_eval(max_fuel(), e);
    lemma_value_read_back(max_fuel(), e);
}

/// An expression made of pairs and symbols alone.
pub open spec fn is_pair_tree(e: SpecExp) -> bool
    decreases e,
{
    match e {
        SpecExp::Cons(l, r) => is_pair_tree(*l) && is_pair_tree(*r),
        SpecExp::Sym(_) => true,
        _ => false,
    }
}

proof fn lemma_pair_tree_eval(f: nat, env: SpecEnv, e: SpecExp)
    requires
        is_pair_tree(e),
        f >= 2 * height(e) + 2,
    ensures
        eval_within(f, env, e) == Some(value_of(e)),
    decreases e,
{
    match e {
        SpecExp::Cons(l, r) => {
            assert(height(*l) < height(e) && height(*r) < height(e));
            lemma_pair_tree_eval((f - 2) as nat, env, *l);
            lemma_pair_tree_eval((f - 2) as nat, env, *r);
        },
        _ => {},
    }
}

proof fn lemma_pair_tree_read_back(f: nat, e: SpecExp)
    requires
        is_pair_tree(e),
        f >= height(e) + 2,
    ensures
        read_back_within(f, value_of(e)) == Some(e),
    decreases e,
{
    match e {
        SpecExp::Cons(l, r) => {
            assert(height(*l) < height(e) && height(*r) < height(e));
            lemma_pair_tree_read_back((f - 1) as nat, *l);
            lemma_pair_tree_read_back((f - 1) as nat, *r);
        },
        _ => {},
    }
}

/// An expression made of pairs and symbols evaluates, in any environment,
/// to a value that reads back as the expression itself.
pub proof fn lemma_pair_tree_round_trip(env: SpecEnv, e: SpecExp)
    requires
        is_pair_tree(e),
    ensures
        evaluates_to(env, e, value_of(e)),
        reads_back_to(value_of(e), e),
{
    lemma_pair_tree_eval(2 * height(e) + 2, env, e);
    lemma_pair_tree_read_back(height(e) + 2, e);
}

/// A value made of pairs and symbols alone.
pub open spec fn is_pair_value(d: SpecDeep) -> bool
    decreases d,
{
    match d {
        SpecDeep::Cons(l, r) => is_pair_value(*l) && is_pair_value(*r),
        SpecDeep::Sym(_) => true,
        _ => false,
    }
}

/// The expression of pairs and symbols that a value of pairs and symbols
/// stands for.
pub open spec fn pair_exp(d: SpecDeep) -> SpecExp
    decreases d,
{
    match d {
        SpecDeep::Cons(l, r) => SpecExp::Cons(Box::new(pair_exp(*l)), Box::new(pair_exp(*r))),
        SpecDeep::Sym(s) => SpecExp::Sym(s),
        _ => SpecExp::Sym(Seq::empty()),
    }
}

proof fn lemma_pair_exp(d: SpecDeep)
    requires
        is_pair_value(d),
    ensures
        is_pair_tree(pair_exp(d)),
        value_of(pair_exp(d)) == d,
        deep_syms_named(d) ==> is_value(pair_exp(d)),
    decreases d,
{
    match d {
        SpecDeep::Cons(l, r) => {
            lemma_pair_exp(*l);
            lemma_pair_exp(*r);
        },
        _ => {},
    }
}

/// Evaluating to a value of pairs and symbols takes a budget of at least
/// twice its height, and two more.
proof fn lemma_eval_height(f: nat, env: SpecEnv, x: SpecExp, d: SpecDeep)
    requires
        eval_within(f, env, x) == Some(d),
        is_pair_value(d),
    ensures
        f >= 2 * height(pair_exp(d)) + 2,
    decreases f,
{
    let f1 = (f - 1) as nat;
    let data = lazy_within(f1, env, x)->0;
    match d {
        SpecDeep::Cons(dl, dr) => {
            match data {
                SpecData::Cons(denv, l, r) => {
                    let f2 = (f1 - 1) as nat;
                    lemma_eval_height(f2, denv, *l, *dl);
                    lemma_eval_height(f2, denv, *r, *dr);
                },
                _ => {},
            }
        },
        _ => {},
    }
}

/// Where a program's value is made of pairs and symbols, what it prints,
/// run as a program, prints the same text again.
pub proof fn lemma_program_output_fixed_point(text: Seq<char>, d: SpecDeep)
    requires
        terminates(SpecEnv::Empty, parse_spec(text)),
        evaluates_to(SpecEnv::Empty, parse_spec(text), d),
        is_pair_value(d),
    ensures
        program_output(text) is Some,
        program_output(program_output(text)->0) == program_output(text),
{
    let p = parse_spec(text);
    let f = choose|f: nat| f <= max_fuel() && (#[trigger] eval_within(f, SpecEnv::Empty, p)) is Some;
    lemma_eval_fuel_monotone(f, max_fuel(), SpecEnv::Empty, p);
    let d2 = eval_within(max_fuel(), SpecEnv::Empty, p)->0;
    assert(evaluates_to(SpecEnv::Empty, p, d2));
    lemma_evaluates_to_unique(SpecEnv::Empty, p, d, d2);
    lemma_parse_named(text);
    lemma_eval_named(max_fuel(), SpecEnv::Empty, p);
    lemma_pair_exp(d);
    let e = pair_exp(d);
    lemma_eval_height(max_fuel(), SpecEnv::Empty, p, d);
    lemma_pair_tree_read_back(max_fuel(), e);
    lemma_printed_value_fixed_point(e);
}

} // verus!
