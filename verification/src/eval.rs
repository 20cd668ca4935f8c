use vstd::prelude::*;

use crate::exp::{Data, Deep, Env, Error, Exp, Thunk};
use crate::model::{SpecData, SpecDeep, SpecEnv, SpecError, SpecExp};
use crate::semantics::{
    apply_within, bound, deep_within, eval_within, evaluates_to, lazy_within, lemma_eval_fuel_monotone,
    lemma_read_back_fuel_monotone, match_both, match_within, max_fuel, read_back_within, reads_back,
    reads_back_to, resolve_within, terminates, wrap_within,
};

verus! {

/// The value of an optional result.
pub open spec fn opt_deep(o: Option<Deep>) -> Option<SpecDeep> {
    match o {
        Some(d) => Some(d@),
        None => None,
    }
}

/// The value of an optional result.
pub open spec fn opt_data(o: Option<Data>) -> Option<SpecData> {
    match o {
        Some(d) => Some(d@),
        None => None,
    }
}

/// The value of an optional result.
pub open spec fn opt_exp(o: Option<Exp>) -> Option<SpecExp> {
    match o {
        Some(e) => Some(e@),
        None => None,
    }
}

/// The value of an optional match result.
pub open spec fn opt_match(o: Option<Result<Env, Error>>) -> Option<Result<SpecEnv, SpecError>> {
    match o {
        Some(Ok(env)) => Some(Ok(env@)),
        Some(Err(e)) => Some(Err(e@)),
        None => None,
    }
}

/// Evaluates `exp` in `env` fully, with a budget of `fuel` steps; `None`
/// where the budget does not suffice.
pub fn eval_with_fuel(fuel: u64, env: Env, exp: Exp) -> (deep: Option<Deep>)
    ensures
        opt_deep(deep) == eval_within(fuel as nat, env@, exp@),
    decreases fuel, 0int,
{
    if fuel == 0 {
        return None;
    }
    match eval_lazy(fuel - 1, env, exp) {
        None => None,
        Some(data) => eval_deep(fuel - 1, data),
    }
}

/// Evaluates `exp` in `env` fully. It is required that the evaluation ends;
/// the result is the one the evaluation reaches.
pub fn eval(env: Env, exp: Exp) -> (deep: Deep)
    requires
        terminates(env@, exp@),
    ensures
        evaluates_to(env@, exp@, deep@),
{
    proof {
        let f = choose|f: nat| f <= max_fuel() && (#[trigger] eval_within(f, env@, exp@)) is Some;
        lemma_eval_fuel_monotone(f, max_fuel(), env@, exp@);
    }
    let deep = eval_with_fuel(u64::MAX, env, exp);
    proof {
        assert(eval_within(max_fuel(), env@, exp@) == opt_deep(deep));
    }
    deep.unwrap()
}

fn eval_deep(fuel: u64, data: Data) -> (deep: Option<Deep>)
    ensures
        opt_deep(deep) == deep_within(fuel as nat, data@),
    decreases fuel, 0int,
{
    if fuel == 0 {
        return None;
    }
    match data {
        Data::Cons(env, l, r) => {
            let dl = match eval_with_fuel(fuel - 1, env.clone(), *l) {
                None => return None,
                Some(d) => d,
            };
            let dr = match eval_with_fuel(fuel - 1, env, *r) {
                None => return None,
                Some(d) => d,
            };
            Some(Deep::Cons(Box::new(dl), Box::new(dr)))
        },
        Data::Fun(env, l, r) => Some(Deep::Fun(env, l, r)),
        Data::Sym(sym) => Some(Deep::Sym(sym)),
        Data::Error(e) => Some(Deep::Error(e)),
    }
}

fn eval_lazy(fuel: u64, env: Env, exp: Exp) -> (data: Option<Data>)
    ensures
        opt_data(data) == lazy_within(fuel as nat, env@, exp@),
    decreases fuel, 0int,
{
    if fuel == 0 {
        return None;
    }
    match exp {
        Exp::Let(var, exp, body) => eval_lazy(fuel - 1, bind(env, var, *exp), *body),
        Exp::Cons(l, r) => Some(Data::Cons(env, l, r)),
        Exp::Fun(pat, body) => Some(Data::Fun(env, pat, body)),
        Exp::App(fun, arg) => apply(fuel - 1, env, *fun, *arg),
        Exp::Var(var) => resolve(fuel - 1, env, var),
        Exp::Sym(sym) => Some(Data::Sym(sym)),
        Exp::Error(e) => Some(Data::Error(e)),
    }
}

fn apply(fuel: u64, env: Env, fun: Exp, arg: Exp) -> (data: Option<Data>)
    ensures
        opt_data(data) == apply_within(fuel as nat, env@, fun@, arg@),
    decreases fuel, 0int,
{
    if fuel == 0 {
        return None;
    }
    match eval_lazy(fuel - 1, env.clone(), fun) {
        None => None,
        Some(Data::Cons(cons_env, l, r)) => {
            let env = extend(env, cons_env);
            match apply(fuel - 1, env.clone(), *l, arg.clone()) {
                None => None,
                Some(Data::Error(_)) => apply(fuel - 1, env, *r, arg),
                Some(data) => Some(data),
            }
        },
        Some(Data::Fun(fun_env, pat, body)) => {
            let env = extend(env, fun_env);
            match pattern_match(fuel - 1, env, *pat, arg) {
                None => None,
                Some(Ok(env)) => eval_lazy(fuel - 1, env, *body),
                Some(Err(e)) => Some(Data::Error(e)),
            }
        },
        Some(Data::Sym(sym)) => Some(Data::Error(Error::ApplySym(Box::new(Data::Sym(sym))))),
        Some(Data::Error(e)) => Some(Data::Error(e)),
    }
}

fn pattern_match_both(
    fuel: u64,
    env: Env,
    pat1: Exp,
    arg1: Exp,
    env2: Env,
    pat2: Exp,
    arg2: Exp,
) -> (res: Option<Result<Env, Error>>)
    ensures
        opt_match(res) == match_both(fuel as nat, env@, pat1@, arg1@, env2@, pat2@, arg2@),
    decreases fuel, 1int,
{
    let e1 = match pattern_match(fuel, env, pat1, arg1) {
        None => return None,
        Some(Err(e)) => return Some(Err(e)),
        Some(Ok(e1)) => e1,
    };
    let e2 = match pattern_match(fuel, env2, pat2, arg2) {
        None => return None,
        Some(Err(e)) => return Some(Err(e)),
        Some(Ok(e2)) => e2,
    };
    Some(Ok(extend(e1, e2)))
}

fn pattern_match(fuel: u64, env: Env, pat: Exp, arg: Exp) -> (res: Option<Result<Env, Error>>)
    ensures
        opt_match(res) == match_within(fuel as nat, env@, pat@, arg@),
    decreases fuel, 0int,
{
    if fuel == 0 {
        return None;
    }
    let f = fuel - 1;
    match pat {
        Exp::Let(var, exp, body) => match arg {
            Exp::Let(_, arg_exp, arg_body) => pattern_match_both(
                f,
                env.clone(),
                *exp,
                *arg_exp,
                env,
                *body,
                *arg_body,
            ),
            other => Some(Err(Error::PatternMatchExp(Box::new(Exp::Let(var, exp, body)), Box::new(other)))),
        },
        Exp::Cons(l, r) => match eval_lazy(f, env.clone(), arg) {
            None => None,
            Some(Data::Cons(arg_env, arg_l, arg_r)) => {
                let env = extend(env, arg_env);
                pattern_match_both(f, env.clone(), *l, *arg_l, env, *r, *arg_r)
            },
            Some(other) => Some(Err(Error::PatternMatchData(Box::new(Exp::Cons(l, r)), Box::new(other)))),
        },
        Exp::Fun(p, b) => match eval_lazy(f, env.clone(), arg) {
            None => None,
            Some(Data::Fun(arg_env, arg_p, arg_b)) => {
                let env = extend(env, arg_env);
                pattern_match_both(f, env.clone(), *p, *arg_p, env, *b, *arg_b)
            },
            Some(other) => Some(Err(Error::PatternMatchData(Box::new(Exp::Fun(p, b)), Box::new(other)))),
        },
        Exp::App(l, r) => match arg {
            Exp::App(arg_l, arg_r) => pattern_match_both(f, env.clone(), *l, *arg_l, env, *r, *arg_r),
            other => Some(Err(Error::PatternMatchExp(Box::new(Exp::App(l, r)), Box::new(other)))),
        },
        Exp::Var(var) => Some(Ok(bind(env, var, arg))),
        Exp::Sym(sym) => match eval_lazy(f, env.clone(), arg) {
            None => None,
            Some(Data::Sym(arg_sym)) => {
                if sym == arg_sym {
                    Some(Ok(env))
                } else {
                    Some(Err(Error::PatternMatchSym(sym, arg_sym)))
                }
            },
            Some(other) => Some(Err(Error::PatternMatchData(Box::new(Exp::Sym(sym)), Box::new(other)))),
        },
        Exp::Error(e) => Some(Err(e)),
    }
}

/// Binds `var` to `exp`, delayed in the environment as it was before.
fn bind(env: Env, var: String, exp: Exp) -> (res: Env)
    ensures
        res@ == bound(env@, var@, exp@),
{
    let captured = env.clone();
    env.insert(var, Thunk(captured, exp))
}

fn resolve(fuel: u64, env: Env, var: String) -> (data: Option<Data>)
    ensures
        opt_data(data) == resolve_within(fuel as nat, env@, var@),
    decreases fuel, 0int,
{
    if fuel == 0 {
        return None;
    }
    match env.take(&var) {
        Some(Thunk(env, exp)) => eval_lazy(fuel - 1, env, exp),
        None => Some(Data::Error(Error::Undefined(var))),
    }
}

/// Adds the bindings of `new_env` to `env`, each in place of the binding of
/// the same name.
fn extend(env: Env, new_env: Env) -> (res: Env)
    ensures
        res@ == env@.extended(new_env@),
{
    env.extend(new_env)
}


/// Reads `deep` back as an expression, with a budget of `fuel` steps for
/// the evaluations it makes; `None` where the budget does not suffice.
pub fn deep_to_exp_with_fuel(fuel: u64, deep: Deep) -> (exp: Option<Exp>)
    ensures
        opt_exp(exp) == read_back_within(fuel as nat, deep@),
    decreases fuel, 0int,
{
    if fuel == 0 {
        return None;
    }
    match deep {
        Deep::Cons(l, r) => {
            let el = match deep_to_exp_with_fuel(fuel - 1, *l) {
                None => return None,
                Some(e) => e,
            };
            let er = match deep_to_exp_with_fuel(fuel - 1, *r) {
                None => return None,
                Some(e) => e,
            };
            Some(Exp::Cons(Box::new(el), Box::new(er)))
        },
        Deep::Fun(env, l, r) => wrap_bindings(fuel - 1, env, Exp::Fun(l, r)),
        Deep::Sym(sym) => Some(Exp::Sym(sym)),
        Deep::Error(e) => Some(Exp::Error(e)),
    }
}

fn wrap_bindings(fuel: u64, env: Env, body: Exp) -> (exp: Option<Exp>)
    ensures
        opt_exp(exp) == wrap_within(fuel as nat, env@, body@),
    decreases fuel, 0int,
{
    if fuel == 0 {
        return None;
    }
    match env {
        Env::Empty => Some(body),
        Env::Bind(var, thunk, rest) => {
            let ghost tv = thunk@;
            let Thunk(tenv, texp) = *thunk;
            assert(tv.0 == tenv@ && tv.1 == texp@);
            let deep = match eval_with_fuel(fuel - 1, tenv, texp) {
                None => return None,
                Some(d) => d,
            };
            let exp = match deep_to_exp_with_fuel(fuel - 1, deep) {
                None => return None,
                Some(e) => e,
            };
            wrap_bindings(fuel - 1, *rest, Exp::Let(var, Box::new(exp), Box::new(body)))
        },
    }
}

/// Reads a value back as an expression. It is required that the
/// evaluations this makes end; the result is the one they reach.
pub fn deep_to_exp(deep: Deep) -> (exp: Exp)
    requires
        reads_back(deep@),
    ensures
        reads_back_to(deep@, exp@),
{
    proof {
        let f = choose|f: nat| f <= max_fuel() && (#[trigger] read_back_within(f, deep@)) is Some;
        lemma_read_back_fuel_monotone(f, max_fuel(), deep@);
    }
    let exp = deep_to_exp_with_fuel(u64::MAX, deep);
    proof {
        assert(read_back_within(max_fuel(), deep@) == opt_exp(exp));
    }
    exp.unwrap()
}

} // verus!
