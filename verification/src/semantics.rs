use vstd::prelude::*;

use crate::model::{SpecData, SpecDeep, SpecEnv, SpecError, SpecExp, SpecThunk};

verus! {

// The evaluator may run forever, so its meaning is given with a budget of
// steps: every function below spends one unit of `fuel` per call and gives
// `None` when the budget is used up. Once an evaluation succeeds with some
// budget, it gives the same result with any larger one (see
// `lemma_eval_fuel_monotone`), so the result does not depend on the budget.

/// `env` with `var` bound to `exp`, delayed in the environment `env`.
pub open spec fn bound(env: SpecEnv, var: Seq<char>, exp: SpecExp) -> SpecEnv {
    env.inserted(var, SpecThunk(env, exp))
}

/// Full evaluation of `exp` in `env`: to head form, then deeply.
pub open spec fn eval_within(fuel: nat, env: SpecEnv, exp: SpecExp) -> Option<SpecDeep>
    decreases fuel, 0int,
{
    if fuel == 0 {
        None
    } else {
        match lazy_within((fuel - 1) as nat, env, exp) {
            None => None,
            Some(data) => deep_within((fuel - 1) as nat, data),
        }
    }
}

/// Evaluation of the pairs in head form data, both sides in the pair's
/// environment.
pub open spec fn deep_within(fuel: nat, data: SpecData) -> Option<SpecDeep>
    decreases fuel, 0int,
{
    if fuel == 0 {
        None
    } else {
        let f = (fuel - 1) as nat;
        match data {
            SpecData::Cons(env, l, r) => match eval_within(f, env, *l) {
                None => None,
                Some(dl) => match eval_within(f, env, *r) {
                    None => None,
                    Some(dr) => Some(SpecDeep::Cons(Box::new(dl), Box::new(dr))),
                },
            },
            SpecData::Fun(env, l, r) => Some(SpecDeep::Fun(env, l, r)),
            SpecData::Sym(s) => Some(SpecDeep::Sym(s)),
            SpecData::Error(e) => Some(SpecDeep::Error(e)),
        }
    }
}

/// Evaluation of `exp` in `env` to head form.
pub open spec fn lazy_within(fuel: nat, env: SpecEnv, exp: SpecExp) -> Option<SpecData>
    decreases fuel, 0int,
{
    if fuel == 0 {
        None
    } else {
        let f = (fuel - 1) as nat;
        match exp {
            SpecExp::Let(var, e, body) => lazy_within(f, bound(env, var, *e), *body),
            SpecExp::Cons(l, r) => Some(SpecData::Cons(env, l, r)),
            SpecExp::Fun(pat, body) => Some(SpecData::Fun(env, pat, body)),
            SpecExp::App(fun, arg) => apply_within(f, env, *fun, *arg),
            SpecExp::Var(var) => resolve_within(f, env, var),
            SpecExp::Sym(s) => Some(SpecData::Sym(s)),
            SpecExp::Error(e) => Some(SpecData::Error(e)),
        }
    }
}

/// Application of `fun` to `arg`, both in `env`. A pair of functions tries
/// its left side and, where that gives an error, its right side.
pub open spec fn apply_within(fuel: nat, env: SpecEnv, fun: SpecExp, arg: SpecExp) -> Option<SpecData>
    decreases fuel, 0int,
{
    if fuel == 0 {
        None
    } else {
        let f = (fuel - 1) as nat;
        match lazy_within(f, env, fun) {
            None => None,
            Some(SpecData::Cons(cons_env, l, r)) => {
                let env2 = env.extended(cons_env);
                match apply_within(f, env2, *l, arg) {
                    None => None,
                    Some(SpecData::Error(_)) => apply_within(f, env2, *r, arg),
                    Some(data) => Some(data),
                }
            },
            Some(SpecData::Fun(fun_env, pat, body)) => {
                let env2 = env.extended(fun_env);
                match match_within(f, env2, *pat, arg) {
                    None => None,
                    Some(Ok(env3)) => lazy_within(f, env3, *body),
                    Some(Err(e)) => Some(SpecData::Error(e)),
                }
            },
            Some(SpecData::Sym(s)) => Some(SpecData::Error(SpecError::ApplySym(Box::new(SpecData::Sym(s))))),
            Some(SpecData::Error(e)) => Some(SpecData::Error(e)),
        }
    }
}

/// Two matches in turn, the second only where the first succeeds; the
/// bindings of the second are added to those of the first.
pub open spec fn match_both(
    fuel: nat,
    env: SpecEnv,
    pat1: SpecExp,
    arg1: SpecExp,
    env2: SpecEnv,
    pat2: SpecExp,
    arg2: SpecExp,
) -> Option<Result<SpecEnv, SpecError>>
    decreases fuel, 1int,
{
    match match_within(fuel, env, pat1, arg1) {
        None => None,
        Some(Err(e)) => Some(Err(e)),
        Some(Ok(e1)) => match match_within(fuel, env2, pat2, arg2) {
            None => None,
            Some(Err(e)) => Some(Err(e)),
            Some(Ok(e2)) => Some(Ok(e1.extended(e2))),
        },
    }
}

/// Matching of the pattern `pat` against `arg`, giving the environment
/// `env` with the pattern's variables bound.
pub open spec fn match_within(fuel: nat, env: SpecEnv, pat: SpecExp, arg: SpecExp) -> Option<Result<SpecEnv, SpecError>>
    decreases fuel, 0int,
{
    if fuel == 0 {
        None
    } else {
        let f = (fuel - 1) as nat;
        match pat {
            SpecExp::Let(var, exp, body) => match arg {
                SpecExp::Let(_, arg_exp, arg_body) => match_both(f, env, *exp, *arg_exp, env, *body, *arg_body),
                other => Some(Err(SpecError::PatternMatchExp(Box::new(SpecExp::Let(var, exp, body)), Box::new(other)))),
            },
            SpecExp::Cons(l, r) => match lazy_within(f, env, arg) {
                None => None,
                Some(SpecData::Cons(arg_env, arg_l, arg_r)) => {
                    let env2 = env.extended(arg_env);
                    match_both(f, env2, *l, *arg_l, env2, *r, *arg_r)
                },
                Some(other) => Some(Err(SpecError::PatternMatchData(Box::new(SpecExp::Cons(l, r)), Box::new(other)))),
            },
            SpecExp::Fun(p, b) => match lazy_within(f, env, arg) {
                None => None,
                Some(SpecData::Fun(arg_env, arg_p, arg_b)) => {
                    let env2 = env.extended(arg_env);
                    match_both(f, env2, *p, *arg_p, env2, *b, *arg_b)
                },
                Some(other) => Some(Err(SpecError::PatternMatchData(Box::new(SpecExp::Fun(p, b)), Box::new(other)))),
            },
            SpecExp::App(l, r) => match arg {
                SpecExp::App(arg_l, arg_r) => match_both(f, env, *l, *arg_l, env, *r, *arg_r),
                other => Some(Err(SpecError::PatternMatchExp(Box::new(SpecExp::App(l, r)), Box::new(other)))),
            },
            SpecExp::Var(var) => Some(Ok(bound(env, var, arg))),
            SpecExp::Sym(s) => match lazy_within(f, env, arg) {
                None => None,
                Some(SpecData::Sym(arg_s)) => if s == arg_s {
                    Some(Ok(env))
                } else {
                    Some(Err(SpecError::PatternMatchSym(s, arg_s)))
                },
                Some(other) => Some(Err(SpecError::PatternMatchData(Box::new(SpecExp::Sym(s)), Box::new(other)))),
            },
            SpecExp::Error(e) => Some(Err(e)),
        }
    }
}

/// Evaluation of a variable: its thunk, in the thunk's own environment.
pub open spec fn resolve_within(fuel: nat, env: SpecEnv, var: Seq<char>) -> Option<SpecData>
    decreases fuel, 0int,
{
    if fuel == 0 {
        None
    } else {
        match env.lookup(var) {
            Some(SpecThunk(tenv, texp)) => lazy_within((fuel - 1) as nat, tenv, texp),
            None => Some(SpecData::Error(SpecError::Undefined(var))),
        }
    }
}

/// The largest budget the executable evaluator is given.
pub open spec fn max_fuel() -> nat {
    u64::MAX as nat
}

/// `exp` evaluates in `env` within the budget that `eval` has.
pub open spec fn terminates(env: SpecEnv, exp: SpecExp) -> bool {
    exists|f: nat| f <= max_fuel() && (#[trigger] eval_within(f, env, exp)) is Some
}

/// `exp` evaluates in `env` to `deep`, with some budget.
pub open spec fn evaluates_to(env: SpecEnv, exp: SpecExp, deep: SpecDeep) -> bool {
    exists|f: nat| #[trigger] eval_within(f, env, exp) == Some(deep)
}


/// A larger budget never changes a result that a smaller one reached: the
/// meaning of an evaluation does not depend on the budget.
pub proof fn lemma_eval_fuel_monotone(f: nat, g: nat, env: SpecEnv, exp: SpecExp)
    requires
        f <= g,
        eval_within(f, env, exp) is Some,
    ensures
        eval_within(g, env, exp) == eval_within(f, env, exp),
    decreases f, 0int,
{
    let data = lazy_within((f - 1) as nat, env, exp);
    lemma_lazy_fuel_monotone((f - 1) as nat, (g - 1) as nat, env, exp);
    lemma_deep_fuel_monotone((f - 1) as nat, (g - 1) as nat, data->0);
}

/// `deep_within` does not depend on the budget once it succeeds.
pub proof fn lemma_deep_fuel_monotone(f: nat, g: nat, data: SpecData)
    requires
        f <= g,
        deep_within(f, data) is Some,
    ensures
        deep_within(g, data) == deep_within(f, data),
    decreases f, 0int,
{
    let f1 = (f - 1) as nat;
    let g1 = (g - 1) as nat;
    match data {
        SpecData::Cons(env, l, r) => {
            lemma_eval_fuel_monotone(f1, g1, env, *l);
            lemma_eval_fuel_monotone(f1, g1, env, *r);
        },
        _ => {},
    }
}

/// `lazy_within` does not depend on the budget once it succeeds.
pub proof fn lemma_lazy_fuel_monotone(f: nat, g: nat, env: SpecEnv, exp: SpecExp)
    requires
        f <= g,
        lazy_within(f, env, exp) is Some,
    ensures
        lazy_within(g, env, exp) == lazy_within(f, env, exp),
    decreases f, 0int,
{
    let f1 = (f - 1) as nat;
    let g1 = (g - 1) as nat;
    match exp {
        SpecExp::Let(var, e, body) => lemma_lazy_fuel_monotone(f1, g1, bound(env, var, *e), *body),
        SpecExp::App(fun, arg) => lemma_apply_fuel_monotone(f1, g1, env, *fun, *arg),
        SpecExp::Var(var) => lemma_resolve_fuel_monotone(f1, g1, env, var),
        _ => {},
    }
}

/// `resolve_within` does not depend on the budget once it succeeds.
pub proof fn lemma_resolve_fuel_monotone(f: nat, g: nat, env: SpecEnv, var: Seq<char>)
    requires
        f <= g,
        resolve_within(f, env, var) is Some,
    ensures
        resolve_within(g, env, var) == resolve_within(f, env, var),
    decreases f, 0int,
{
    match env.lookup(var) {
        Some(SpecThunk(tenv, texp)) => lemma_lazy_fuel_monotone((f - 1) as nat, (g - 1) as nat, tenv, texp),
        None => {},
    }
}

/// `apply_within` does not depend on the budget once it succeeds.
pub proof fn lemma_apply_fuel_monotone(f: nat, g: nat, env: SpecEnv, fun: SpecExp, arg: SpecExp)
    requires
        f <= g,
        apply_within(f, env, fun, arg) is Some,
    ensures
        apply_within(g, env, fun, arg) == apply_within(f, env, fun, arg),
    decreases f, 0int,
{
    let f1 = (f - 1) as nat;
    let g1 = (g - 1) as nat;
    lemma_lazy_fuel_monotone(f1, g1, env, fun);
    match lazy_within(f1, env, fun) {
        Some(SpecData::Cons(cons_env, l, r)) => {
            let env2 = env.extended(cons_env);
            lemma_apply_fuel_monotone(f1, g1, env2, *l, arg);
            match apply_within(f1, env2, *l, arg) {
                Some(SpecData::Error(_)) => lemma_apply_fuel_monotone(f1, g1, env2, *r, arg),
                _ => {},
            }
        },
        Some(SpecData::Fun(fun_env, pat, body)) => {
            let env2 = env.extended(fun_env);
            lemma_match_fuel_monotone(f1, g1, env2, *pat, arg);
            match match_within(f1, env2, *pat, arg) {
                Some(Ok(env3)) => lemma_lazy_fuel_monotone(f1, g1, env3, *body),
                _ => {},
            }
        },
        _ => {},
    }
}

/// `match_both` does not depend on the budget once it succeeds.
pub proof fn lemma_match_both_fuel_monotone(
    f: nat,
    g: nat,
    env: SpecEnv,
    pat1: SpecExp,
    arg1: SpecExp,
    env2: SpecEnv,
    pat2: SpecExp,
    arg2: SpecExp,
)
    requires
        f <= g,
        match_both(f, env, pat1, arg1, env2, pat2, arg2) is Some,
    ensures
        match_both(g, env, pat1, arg1, env2, pat2, arg2) == match_both(f, env, pat1, arg1, env2, pat2, arg2),
    decreases f, 1int,
{
    lemma_match_fuel_monotone(f, g, env, pat1, arg1);
    match match_within(f, env, pat1, arg1) {
        Some(Ok(_)) => lemma_match_fuel_monotone(f, g, env2, pat2, arg2),
        _ => {},
    }
}

/// `match_within` does not depend on the budget once it succeeds.
pub proof fn lemma_match_fuel_monotone(f: nat, g: nat, env: SpecEnv, pat: SpecExp, arg: SpecExp)
    requires
        f <= g,
        match_within(f, env, pat, arg) is Some,
    ensures
        match_within(g, env, pat, arg) == match_within(f, env, pat, arg),
    decreases f, 0int,
{
    let f1 = (f - 1) as nat;
    let g1 = (g - 1) as nat;
    match pat {
        SpecExp::Let(var, exp, body) => match arg {
            SpecExp::Let(_, arg_exp, arg_body) => lemma_match_both_fuel_monotone(f1, g1, env, *exp, *arg_exp, env, *body, *arg_body),
            _ => {},
        },
        SpecExp::Cons(l, r) => {
            lemma_lazy_fuel_monotone(f1, g1, env, arg);
            match lazy_within(f1, env, arg) {
                Some(SpecData::Cons(arg_env, arg_l, arg_r)) => {
                    let env2 = env.extended(arg_env);
                    lemma_match_both_fuel_monotone(f1, g1, env2, *l, *arg_l, env2, *r, *arg_r);
                },
                _ => {},
            }
        },
        SpecExp::Fun(p, b) => {
            lemma_lazy_fuel_monotone(f1, g1, env, arg);
            match lazy_within(f1, env, arg) {
                Some(SpecData::Fun(arg_env, arg_p, arg_b)) => {
                    let env2 = env.extended(arg_env);
                    lemma_match_both_fuel_monotone(f1, g1, env2, *p, *arg_p, env2, *b, *arg_b);
                },
                _ => {},
            }
        },
        SpecExp::App(l, r) => match arg {
            SpecExp::App(arg_l, arg_r) => lemma_match_both_fuel_monotone(f1, g1, env, *l, *arg_l, env, *r, *arg_r),
            _ => {},
        },
        SpecExp::Sym(_) => lemma_lazy_fuel_monotone(f1, g1, env, arg),
        _ => {},
    }
}

/// An evaluation has at most one result, whatever budgets reach it.
pub proof fn lemma_evaluates_to_unique(env: SpecEnv, exp: SpecExp, d1: SpecDeep, d2: SpecDeep)
    requires
        evaluates_to(env, exp, d1),
        evaluates_to(env, exp, d2),
    ensures
        d1 == d2,
{
    let f1 = choose|f: nat| #[trigger] eval_within(f, env, exp) == Some(d1);
    let f2 = choose|f: nat| #[trigger] eval_within(f, env, exp) == Some(d2);
    if f1 <= f2 {
        lemma_eval_fuel_monotone(f1, f2, env, exp);
    } else {
        lemma_eval_fuel_monotone(f2, f1, env, exp);
    }
}


/// The expression that a value reads back as: pairs and symbols as
/// themselves, a function as its definition wrapped in `Let`s that give each
/// name of its environment the read back value of its binding.
pub open spec fn read_back_within(fuel: nat, deep: SpecDeep) -> Option<SpecExp>
    decreases fuel, 0int,
{
    if fuel == 0 {
        None
    } else {
        let f = (fuel - 1) as nat;
        match deep {
            SpecDeep::Cons(l, r) => match read_back_within(f, *l) {
                None => None,
                Some(el) => match read_back_within(f, *r) {
                    None => None,
                    Some(er) => Some(SpecExp::Cons(Box::new(el), Box::new(er))),
                },
            },
            SpecDeep::Fun(env, l, r) => wrap_within(f, env, SpecExp::Fun(l, r)),
            SpecDeep::Sym(s) => Some(SpecExp::Sym(s)),
            SpecDeep::Error(e) => Some(SpecExp::Error(e)),
        }
    }
}

/// `body` wrapped in a `Let` for each binding of `env`, the first binding
/// innermost.
pub open spec fn wrap_within(fuel: nat, env: SpecEnv, body: SpecExp) -> Option<SpecExp>
    decreases fuel, 0int,
{
    if fuel == 0 {
        None
    } else {
        let f = (fuel - 1) as nat;
        match env {
            SpecEnv::Empty => Some(body),
            SpecEnv::Bind(var, thunk, rest) => match eval_within(f, thunk.0, thunk.1) {
                None => None,
                Some(deep) => match read_back_within(f, deep) {
                    None => None,
                    Some(exp) => wrap_within(f, *rest, SpecExp::Let(var, Box::new(exp), Box::new(body))),
                },
            },
        }
    }
}

/// Reading `deep` back ends within the budget that `deep_to_exp` has.
pub open spec fn reads_back(deep: SpecDeep) -> bool {
    exists|f: nat| f <= max_fuel() && (#[trigger] read_back_within(f, deep)) is Some
}

/// `deep` reads back as `exp`, with some budget.
pub open spec fn reads_back_to(deep: SpecDeep, exp: SpecExp) -> bool {
    exists|f: nat| #[trigger] read_back_within(f, deep) == Some(exp)
}

/// `read_back_within` does not depend on the budget once it succeeds.
pub proof fn lemma_read_back_fuel_monotone(f: nat, g: nat, deep: SpecDeep)
    requires
        f <= g,
        read_back_within(f, deep) is Some,
    ensures
        read_back_within(g, deep) == read_back_within(f, deep),
    decreases f, 0int,
{
    let f1 = (f - 1) as nat;
    let g1 = (g - 1) as nat;
    match deep {
        SpecDeep::Cons(l, r) => {
            lemma_read_back_fuel_monotone(f1, g1, *l);
            lemma_read_back_fuel_monotone(f1, g1, *r);
        },
        SpecDeep::Fun(env, l, r) => lemma_wrap_fuel_monotone(f1, g1, env, SpecExp::Fun(l, r)),
        _ => {},
    }
}

/// `wrap_within` does not depend on the budget once it succeeds.
pub proof fn lemma_wrap_fuel_monotone(f: nat, g: nat, env: SpecEnv, body: SpecExp)
    requires
        f <= g,
        wrap_within(f, env, body) is Some,
    ensures
        wrap_within(g, env, body) == wrap_within(f, env, body),
    decreases f, 0int,
{
    let f1 = (f - 1) as nat;
    let g1 = (g - 1) as nat;
    match env {
        SpecEnv::Empty => {},
        SpecEnv::Bind(var, thunk, rest) => {
            lemma_eval_fuel_monotone(f1, g1, thunk.0, thunk.1);
            let deep = eval_within(f1, thunk.0, thunk.1)->0;
            lemma_read_back_fuel_monotone(f1, g1, deep);
            let exp = read_back_within(f1, deep)->0;
            lemma_wrap_fuel_monotone(f1, g1, *rest, SpecExp::Let(var, Box::new(exp), Box::new(body)));
        },
    }
}

/// A value reads back as at most one expression, whatever budgets reach it.
pub proof fn lemma_reads_back_to_unique(deep: SpecDeep, e1: SpecExp, e2: SpecExp)
    requires
        reads_back_to(deep, e1),
        reads_back_to(deep, e2),
    ensures
        e1 == e2,
{
    let f1 = choose|f: nat| #[trigger] read_back_within(f, deep) == Some(e1);
    let f2 = choose|f: nat| #[trigger] read_back_within(f, deep) == Some(e2);
    if f1 <= f2 {
        lemma_read_back_fuel_monotone(f1, f2, deep);
    } else {
        lemma_read_back_fuel_monotone(f2, f1, deep);
    }
}


/// A pair evaluates to the pair of the values of its two sides, each
/// evaluated in the pair's environment.
pub proof fn lemma_eval_cons(env: SpecEnv, l: SpecExp, r: SpecExp, d: SpecDeep)
    ensures
        evaluates_to(env, SpecExp::Cons(Box::new(l), Box::new(r)), d) <==> (d matches SpecDeep::Cons(dl, dr)
            && evaluates_to(env, l, *dl) && evaluates_to(env, r, *dr)),
{
    let e = SpecExp::Cons(Box::new(l), Box::new(r));
    if evaluates_to(env, e, d) {
        let f = choose|f: nat| #[trigger] eval_within(f, env, e) == Some(d);
        let f2 = (f - 2) as nat;
        assert(lazy_within((f - 1) as nat, env, e) == Some(SpecData::Cons(env, Box::new(l), Box::new(r))));
        let dl = eval_within(f2, env, l)->0;
        let dr = eval_within(f2, env, r)->0;
        assert(eval_within(f2, env, l) == Some(dl));
        assert(eval_within(f2, env, r) == Some(dr));
    }
    if d matches SpecDeep::Cons(_, _) && evaluates_to(env, l, *d->Cons_0) && evaluates_to(env, r, *d->Cons_1) {
        let dl = d->Cons_0;
        let dr = d->Cons_1;
        let fl = choose|f: nat| #[trigger] eval_within(f, env, l) == Some(*dl);
        let fr = choose|f: nat| #[trigger] eval_within(f, env, r) == Some(*dr);
        let g: nat = if fl <= fr { fr } else { fl };
        lemma_eval_fuel_monotone(fl, g, env, l);
        lemma_eval_fuel_monotone(fr, g, env, r);
        assert(lazy_within(g + 1, env, e) == Some(SpecData::Cons(env, Box::new(l), Box::new(r))));
        assert(deep_within(g + 1, SpecData::Cons(env, Box::new(l), Box::new(r))) == Some(d));
        assert(eval_within(g + 2, env, e) == Some(d));
    }
}

impl SpecEnv {
    /// The thunks bound, in order.
    pub open spec fn thunks(self) -> Seq<SpecThunk>
        decreases self,
    {
        match self {
            SpecEnv::Empty => Seq::empty(),
            SpecEnv::Bind(_, t, rest) => seq![*t] + rest.thunks(),
        }
    }
}

/// The names bound by the `Let`s around an expression, the innermost first.
pub open spec fn let_names(e: SpecExp) -> Seq<Seq<char>>
    decreases e,
{
    match e {
        SpecExp::Let(v, _, b) => let_names(*b).push(v),
        _ => Seq::empty(),
    }
}

/// The values given by the `Let`s around an expression, the innermost first.
pub open spec fn let_values(e: SpecExp) -> Seq<SpecExp>
    decreases e,
{
    match e {
        SpecExp::Let(_, x, b) => let_values(*b).push(*x),
        _ => Seq::empty(),
    }
}

/// The expression inside the `Let`s around it.
pub open spec fn let_body(e: SpecExp) -> SpecExp
    decreases e,
{
    match e {
        SpecExp::Let(_, _, b) => let_body(*b),
        _ => e,
    }
}

/// The delayed expression `t` evaluates to a value that reads back as `x`.
pub open spec fn thunk_reads_back_to(t: SpecThunk, x: SpecExp) -> bool {
    exists|d: SpecDeep| #[trigger] evaluates_to(t.0, t.1, d) && reads_back_to(d, x)
}

proof fn lemma_wrap_lets(f: nat, env: SpecEnv, body: SpecExp, e: SpecExp)
    requires
        wrap_within(f, env, body) == Some(e),
    ensures
        let_body(e) == let_body(body),
        let_names(e) == let_names(body) + env.names(),
        let_values(e).len() == let_values(body).len() + env.thunks().len(),
        forall|i: int| 0 <= i < let_values(body).len() ==> #[trigger] let_values(e)[i] == let_values(body)[i],
        forall|i: int|
            0 <= i < env.thunks().len() ==> thunk_reads_back_to(
                env.thunks()[i],
                #[trigger] let_values(e)[let_values(body).len() + i],
            ),
    decreases env,
{
    let f1 = (f - 1) as nat;
    match env {
        SpecEnv::Empty => {
            assert(env.names() =~= Seq::<Seq<char>>::empty());
            assert(let_names(body) + env.names() =~= let_names(body));
        },
        SpecEnv::Bind(v, t, rest) => {
            let deep = eval_within(f1, t.0, t.1)->0;
            let x = read_back_within(f1, deep)->0;
            let body2 = SpecExp::Let(v, Box::new(x), Box::new(body));
            lemma_wrap_lets(f1, *rest, body2, e);
            let n = let_values(body).len() as int;
            assert(let_values(body2) == let_values(body).push(x));
            assert(let_names(body) + env.names() =~= let_names(body2) + rest.names());
            assert(env.thunks() == seq![*t] + rest.thunks());
            assert(eval_within(f1, t.0, t.1) == Some(deep));
            assert(read_back_within(f1, deep) == Some(x));
            assert(evaluates_to(t.0, t.1, deep) && reads_back_to(deep, x));
            assert forall|i: int| 0 <= i < env.thunks().len() implies thunk_reads_back_to(
                env.thunks()[i],
                #[trigger] let_values(e)[n + i],
            ) by {
                if i == 0 {
                    assert(let_values(e)[n] == let_values(body2)[n]);
                } else {
                    assert(env.thunks()[i] == rest.thunks()[i - 1]);
                    assert(let_values(e)[n + i] == let_values(e)[(n + 1) + (i - 1)]);
                }
            }
            assert forall|i: int| 0 <= i < n implies #[trigger] let_values(e)[i] == let_values(body)[i] by {
                assert(let_values(e)[i] == let_values(body2)[i]);
            }
        },
    }
}

/// Reading a function back wraps its definition in one `Let` for each
/// binding of its environment, the first binding innermost: the names are
/// those of the environment, in order, and each is given the read back
/// value of its delayed expression. Where the environment binds each name
/// once, each `Let` binds another name.
pub proof fn lemma_read_back_fun(env: SpecEnv, l: SpecExp, r: SpecExp, e: SpecExp)
    requires
        reads_back_to(SpecDeep::Fun(env, Box::new(l), Box::new(r)), e),
    ensures
        let_body(e) == SpecExp::Fun(Box::new(l), Box::new(r)),
        let_names(e) == env.names(),
        let_values(e).len() == env.thunks().len(),
        forall|i: int|
            0 <= i < env.thunks().len() ==> thunk_reads_back_to(env.thunks()[i], #[trigger] let_values(e)[i]),
        env.well_formed() ==> let_names(e).no_duplicates(),
{
    let deep = SpecDeep::Fun(env, Box::new(l), Box::new(r));
    let f = choose|f: nat| #[trigger] read_back_within(f, deep) == Some(e);
    let body = SpecExp::Fun(Box::new(l), Box::new(r));
    lemma_wrap_lets((f - 1) as nat, env, body, e);
    assert(let_names(body) + env.names() =~= env.names());
    assert forall|i: int| 0 <= i < env.thunks().len() implies thunk_reads_back_to(
        env.thunks()[i],
        #[trigger] let_values(e)[i],
    ) by {
        assert(let_values(e)[0 + i] == let_values(e)[i]);
    }
}

} // verus!
