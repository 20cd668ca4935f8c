use vstd::prelude::*;

use crate::env::lemma_lookup_extended;
use crate::env::lemma_lookup_inserted;
use crate::model::{SpecData, SpecEnv, SpecExp, SpecThunk};
use crate::semantics::{
    apply_within, bound, lazy_within, lemma_lazy_fuel_monotone, match_both, match_within,
    resolve_within,
};

verus! {

// How names are scoped and how functions apply: a binding made by `=`
// hides any earlier one, a function's body sees the bindings the function
// was made with before those of its caller, and the parts of a pair, taken
// apart by a pattern or tried in turn as functions, see the bindings the
// pair was made with. A pair of functions tries its left one first and its
// right one where that fails; patterns compare symbols and bind variables.

/// `exp` evaluates in `env` to the head form `data`, with some budget.
pub open spec fn lazily_evaluates_to(env: SpecEnv, exp: SpecExp, data: SpecData) -> bool {
    exists|f: nat| #[trigger] lazy_within(f, env, exp) == Some(data)
}

proof fn lemma_lift(g: nat, m: nat, env: SpecEnv, exp: SpecExp, data: SpecData)
    requires
        g <= m,
        lazy_within(g, env, exp) == Some(data),
    ensures
        lazy_within(m, env, exp) == Some(data),
{
    lemma_lazy_fuel_monotone(g, m, env, exp);
}

/// A binding hides any earlier binding of its name: `v = e; v` gives, in
/// every environment, what `e` gives there, whether or not the environment
/// already binds `v`.
pub proof fn lemma_let_shadows(f: nat, env: SpecEnv, v: Seq<char>, e: SpecExp)
    ensures
        lazy_within(f + 3, env, SpecExp::Let(v, Box::new(e), Box::new(SpecExp::Var(v)))) == lazy_within(
            f,
            env,
            e,
        ),
{
    let env2 = bound(env, v, e);
    lemma_lookup_inserted(env, v, SpecThunk(env, e), v);
    assert(env2.lookup(v) == Some(SpecThunk(env, e)));
    assert(resolve_within(f + 1, env2, v) == lazy_within(f, env, e));
    assert(lazy_within(f + 2, env2, SpecExp::Var(v)) == resolve_within(f + 1, env2, v));
}

/// Lexical scope: a function reads a name that the environment it was made
/// in binds from that environment, whatever its caller binds the name to.
/// Where `k` holds the function `y -> x`, made in an environment that binds
/// `x` to an expression with head form `d`, applying `k` to any argument
/// gives `d` in every calling environment.
pub proof fn lemma_function_sees_its_own_bindings(
    env: SpecEnv,
    k: Seq<char>,
    kenv: SpecEnv,
    kexp: SpecExp,
    fun_env: SpecEnv,
    y: Seq<char>,
    x: Seq<char>,
    tenv: SpecEnv,
    texp: SpecExp,
    d: SpecData,
    arg: SpecExp,
)
    requires
        x != y,
        env.lookup(k) == Some(SpecThunk(kenv, kexp)),
        lazily_evaluates_to(
            kenv,
            kexp,
            SpecData::Fun(fun_env, Box::new(SpecExp::Var(y)), Box::new(SpecExp::Var(x))),
        ),
        fun_env.lookup(x) == Some(SpecThunk(tenv, texp)),
        lazily_evaluates_to(tenv, texp, d),
    ensures
        lazily_evaluates_to(env, SpecExp::App(Box::new(SpecExp::Var(k)), Box::new(arg)), d),
{
    let fun = SpecData::Fun(fun_env, Box::new(SpecExp::Var(y)), Box::new(SpecExp::Var(x)));
    let g = choose|g: nat| #[trigger] lazy_within(g, kenv, kexp) == Some(fun);
    let h = choose|h: nat| #[trigger] lazy_within(h, tenv, texp) == Some(d);
    let m: nat = if g <= h { h } else { g };
    lemma_lift(g, m, kenv, kexp, fun);
    lemma_lift(h, m, tenv, texp, d);
    let f = m + 2;
    assert(resolve_within(m + 1, env, k) == Some(fun));
    assert(lazy_within(f, env, SpecExp::Var(k)) == Some(fun));
    let env2 = env.extended(fun_env);
    lemma_lookup_extended(env, fun_env, x);
    assert(env2.lookup(x) == Some(SpecThunk(tenv, texp)));
    let env3 = bound(env2, y, arg);
    assert(match_within(f, env2, SpecExp::Var(y), arg) == Some(Ok::<SpecEnv, crate::model::SpecError>(env3)));
    lemma_lookup_inserted(env2, y, SpecThunk(env2, arg), x);
    assert(env3.lookup(x) == Some(SpecThunk(tenv, texp)));
    assert(resolve_within(m + 1, env3, x) == Some(d));
    assert(lazy_within(f, env3, SpecExp::Var(x)) == Some(d));
    assert(apply_within(f + 1, env, SpecExp::Var(k), arg) == Some(d));
    assert(lazy_within(f + 2, env, SpecExp::App(Box::new(SpecExp::Var(k)), Box::new(arg))) == Some(d));
}

/// The parts of a pair, taken apart by a pattern, are read in the
/// environment the pair was made in. Where `w` holds a pair whose left part
/// is the name `z`, and the pair's environment binds `z` to an expression
/// with head form `d`, the function `(l, r) -> l` applied to `w` gives `d`
/// in every calling environment, however that binds `z`. (Where the calling
/// environment or the pair's already binds `l`, that binding is the one
/// the body reads, so such environments are left out.)
pub proof fn lemma_pair_parts_see_the_pairs_bindings(
    env: SpecEnv,
    w: Seq<char>,
    penv: SpecEnv,
    pexp: SpecExp,
    arg_env: SpecEnv,
    z: Seq<char>,
    ar: SpecExp,
    tenv: SpecEnv,
    texp: SpecExp,
    d: SpecData,
    l: Seq<char>,
    r: Seq<char>,
)
    requires
        l != r,
        env.lookup(l) is None,
        arg_env.lookup(l) is None,
        env.lookup(w) == Some(SpecThunk(penv, pexp)),
        lazily_evaluates_to(penv, pexp, SpecData::Cons(arg_env, Box::new(SpecExp::Var(z)), Box::new(ar))),
        arg_env.lookup(z) == Some(SpecThunk(tenv, texp)),
        lazily_evaluates_to(tenv, texp, d),
    ensures
        lazily_evaluates_to(
            env,
            SpecExp::App(
                Box::new(
                    SpecExp::Fun(
                        Box::new(
                            SpecExp::Cons(Box::new(SpecExp::Var(l)), Box::new(SpecExp::Var(r))),
                        ),
                        Box::new(SpecExp::Var(l)),
                    ),
                ),
                Box::new(SpecExp::Var(w)),
            ),
            d,
        ),
{
    let pair = SpecData::Cons(arg_env, Box::new(SpecExp::Var(z)), Box::new(ar));
    let g = choose|g: nat| #[trigger] lazy_within(g, penv, pexp) == Some(pair);
    let h = choose|h: nat| #[trigger] lazy_within(h, tenv, texp) == Some(d);
    let m: nat = if g <= h { h } else { g };
    lemma_lift(g, m, penv, pexp, pair);
    lemma_lift(h, m, tenv, texp, d);
    let pat = SpecExp::Cons(Box::new(SpecExp::Var(l)), Box::new(SpecExp::Var(r)));
    let body = SpecExp::Var(l);
    let fun = SpecExp::Fun(Box::new(pat), Box::new(body));
    let arg = SpecExp::Var(w);
    // The function is made in the calling environment.
    let f = m + 3;
    assert(lazy_within(f, env, fun) == Some(SpecData::Fun(env, Box::new(pat), Box::new(body))));
    let env2 = env.extended(env);
    // The argument is the pair.
    lemma_lookup_extended(env, env, w);
    assert(env2.lookup(w) == Some(SpecThunk(penv, pexp)));
    assert(resolve_within(m + 1, env2, w) == Some(pair));
    assert(lazy_within(m + 2, env2, arg) == Some(pair));
    let env3 = env2.extended(arg_env);
    let e1 = bound(env3, l, SpecExp::Var(z));
    let e2 = bound(env3, r, ar);
    assert(match_within(m + 2, env3, SpecExp::Var(l), SpecExp::Var(z)) == Some(Ok::<SpecEnv, crate::model::SpecError>(e1)));
    assert(match_within(m + 2, env3, SpecExp::Var(r), ar) == Some(Ok::<SpecEnv, crate::model::SpecError>(e2)));
    assert(match_both(m + 2, env3, SpecExp::Var(l), SpecExp::Var(z), env3, SpecExp::Var(r), ar)
        == Some(Ok::<SpecEnv, crate::model::SpecError>(e1.extended(e2))));
    assert(match_within(m + 3, env2, pat, arg) == Some(Ok::<SpecEnv, crate::model::SpecError>(e1.extended(e2))));
    // The body reads `l`, bound to `z` delayed in the pair's environment.
    lemma_lookup_extended(env, env, l);
    lemma_lookup_extended(env2, arg_env, l);
    assert(env3.lookup(l) is None);
    lemma_lookup_inserted(env3, r, SpecThunk(env3, ar), l);
    assert(e2.lookup(l) is None);
    lemma_lookup_inserted(env3, l, SpecThunk(env3, SpecExp::Var(z)), l);
    lemma_lookup_extended(e1, e2, l);
    let e4 = e1.extended(e2);
    assert(e4.lookup(l) == Some(SpecThunk(env3, SpecExp::Var(z))));
    lemma_lookup_extended(env2, arg_env, z);
    assert(env3.lookup(z) == Some(SpecThunk(tenv, texp)));
    assert(resolve_within(m + 1, env3, z) == Some(d));
    assert(lazy_within(m + 2, env3, SpecExp::Var(z)) == Some(d));
    assert(resolve_within(m + 3, e4, l) == Some(d));
    assert(lazy_within(m + 4, e4, body) == Some(d));
    lemma_lift(m + 3, m + 4, env, fun, SpecData::Fun(env, Box::new(pat), Box::new(body)));
    lemma_match_lift(m + 3, m + 4, env2, pat, arg);
    assert(apply_within(m + 5, env, fun, arg) == Some(d));
    assert(lazy_within(m + 6, env, SpecExp::App(Box::new(fun), Box::new(arg))) == Some(d));
}

proof fn lemma_match_lift(f: nat, g: nat, env: SpecEnv, pat: SpecExp, arg: SpecExp)
    requires
        f <= g,
        match_within(f, env, pat, arg) is Some,
    ensures
        match_within(g, env, pat, arg) == match_within(f, env, pat, arg),
{
    crate::semantics::lemma_match_fuel_monotone(f, g, env, pat, arg);
}

/// A pair of functions tried in turn: where the left one fails, the right
/// one runs with the bindings the pair was made with. Where `p` holds a
/// pair whose left part is a symbol (which cannot be applied) and whose
/// right part is the function `y -> x`, and the pair's environment binds
/// `x` to an expression with head form `d`, applying `p` to any argument
/// gives `d` in every calling environment.
pub proof fn lemma_fallback_sees_the_pairs_bindings(
    env: SpecEnv,
    p: Seq<char>,
    penv: SpecEnv,
    pexp: SpecExp,
    cons_env: SpecEnv,
    s: Seq<char>,
    y: Seq<char>,
    x: Seq<char>,
    tenv: SpecEnv,
    texp: SpecExp,
    d: SpecData,
    arg: SpecExp,
)
    requires
        x != y,
        env.lookup(p) == Some(SpecThunk(penv, pexp)),
        lazily_evaluates_to(
            penv,
            pexp,
            SpecData::Cons(
                cons_env,
                Box::new(SpecExp::Sym(s)),
                Box::new(SpecExp::Fun(Box::new(SpecExp::Var(y)), Box::new(SpecExp::Var(x)))),
            ),
        ),
        cons_env.lookup(x) == Some(SpecThunk(tenv, texp)),
        lazily_evaluates_to(tenv, texp, d),
    ensures
        lazily_evaluates_to(env, SpecExp::App(Box::new(SpecExp::Var(p)), Box::new(arg)), d),
{
    let rfun = SpecExp::Fun(Box::new(SpecExp::Var(y)), Box::new(SpecExp::Var(x)));
    let pair = SpecData::Cons(cons_env, Box::new(SpecExp::Sym(s)), Box::new(rfun));
    let g = choose|g: nat| #[trigger] lazy_within(g, penv, pexp) == Some(pair);
    let h = choose|h: nat| #[trigger] lazy_within(h, tenv, texp) == Some(d);
    let m: nat = if g <= h { h } else { g };
    lemma_lift(g, m, penv, pexp, pair);
    lemma_lift(h, m, tenv, texp, d);
    let f = m + 4;
    // The pair.
    lemma_lift(m, m + 2, penv, pexp, pair);
    assert(resolve_within(m + 3, env, p) == Some(pair));
    assert(lazy_within(f, env, SpecExp::Var(p)) == Some(pair));
    let env2 = env.extended(cons_env);
    // Its left part fails.
    assert(lazy_within(m + 3, env2, SpecExp::Sym(s)) == Some(SpecData::Sym(s)));
    assert(apply_within(f, env2, SpecExp::Sym(s), arg) matches Some(SpecData::Error(_)));
    // Its right part reads `x` from the pair's environment.
    assert(lazy_within(m + 3, env2, rfun) == Some(SpecData::Fun(env2, Box::new(SpecExp::Var(y)), Box::new(SpecExp::Var(x)))));
    let env4 = env2.extended(env2);
    let env5 = bound(env4, y, arg);
    assert(match_within(m + 3, env4, SpecExp::Var(y), arg) == Some(Ok::<SpecEnv, crate::model::SpecError>(env5)));
    lemma_lookup_extended(env, cons_env, x);
    lemma_lookup_extended(env2, env2, x);
    lemma_lookup_inserted(env4, y, SpecThunk(env4, arg), x);
    assert(env5.lookup(x) == Some(SpecThunk(tenv, texp)));
    lemma_lift(m, m + 1, tenv, texp, d);
    assert(resolve_within(m + 2, env5, x) == Some(d));
    assert(lazy_within(m + 3, env5, SpecExp::Var(x)) == Some(d));
    assert(apply_within(f, env2, rfun, arg) == Some(d));
    assert(apply_within(f + 1, env, SpecExp::Var(p), arg) == Some(d));
    assert(lazy_within(f + 2, env, SpecExp::App(Box::new(SpecExp::Var(p)), Box::new(arg))) == Some(d));
}

/// A pair of functions tried in turn: where the left one succeeds, its
/// result is the pair's, and the right one is not tried. Where `p` holds a
/// pair whose left part is the function `y -> x`, and the pair's
/// environment binds `x` to an expression with a head form `d` that is no
/// error, applying `p` to any argument gives `d`, whatever the right part.
pub proof fn lemma_pair_prefers_its_left_function(
    env: SpecEnv,
    p: Seq<char>,
    penv: SpecEnv,
    pexp: SpecExp,
    cons_env: SpecEnv,
    y: Seq<char>,
    x: Seq<char>,
    right: SpecExp,
    tenv: SpecEnv,
    texp: SpecExp,
    d: SpecData,
    arg: SpecExp,
)
    requires
        x != y,
        !(d is Error),
        env.lookup(p) == Some(SpecThunk(penv, pexp)),
        lazily_evaluates_to(
            penv,
            pexp,
            SpecData::Cons(
                cons_env,
                Box::new(SpecExp::Fun(Box::new(SpecExp::Var(y)), Box::new(SpecExp::Var(x)))),
                Box::new(right),
            ),
        ),
        cons_env.lookup(x) == Some(SpecThunk(tenv, texp)),
        lazily_evaluates_to(tenv, texp, d),
    ensures
        lazily_evaluates_to(env, SpecExp::App(Box::new(SpecExp::Var(p)), Box::new(arg)), d),
{
    let lfun = SpecExp::Fun(Box::new(SpecExp::Var(y)), Box::new(SpecExp::Var(x)));
    let pair = SpecData::Cons(cons_env, Box::new(lfun), Box::new(right));
    let g = choose|g: nat| #[trigger] lazy_within(g, penv, pexp) == Some(pair);
    let h = choose|h: nat| #[trigger] lazy_within(h, tenv, texp) == Some(d);
    let m: nat = if g <= h { h } else { g };
    lemma_lift(g, m + 1, penv, pexp, pair);
    lemma_lift(h, m, tenv, texp, d);
    // The pair.
    assert(resolve_within(m + 2, env, p) == Some(pair));
    assert(lazy_within(m + 3, env, SpecExp::Var(p)) == Some(pair));
    let env2 = env.extended(cons_env);
    // Its left part reads `x` from the pair's environment.
    assert(lazy_within(m + 2, env2, lfun) == Some(SpecData::Fun(env2, Box::new(SpecExp::Var(y)), Box::new(SpecExp::Var(x)))));
    let env4 = env2.extended(env2);
    let env5 = bound(env4, y, arg);
    assert(match_within(m + 2, env4, SpecExp::Var(y), arg) == Some(Ok::<SpecEnv, crate::model::SpecError>(env5)));
    lemma_lookup_extended(env, cons_env, x);
    lemma_lookup_extended(env2, env2, x);
    lemma_lookup_inserted(env4, y, SpecThunk(env4, arg), x);
    assert(env5.lookup(x) == Some(SpecThunk(tenv, texp)));
    assert(resolve_within(m + 1, env5, x) == Some(d));
    assert(lazy_within(m + 2, env5, SpecExp::Var(x)) == Some(d));
    assert(apply_within(m + 3, env2, lfun, arg) == Some(d));
    assert(apply_within(m + 4, env, SpecExp::Var(p), arg) == Some(d));
    assert(lazy_within(m + 5, env, SpecExp::App(Box::new(SpecExp::Var(p)), Box::new(arg))) == Some(d));
}

/// A symbol as a pattern matches that symbol alone. Where `w` holds an
/// expression with head form the symbol `t`, the function `:s -> :u`
/// applied to `w` gives `:u` where `t` is `s`, and otherwise the error that
/// `s` and `t` differ.
pub proof fn lemma_symbol_pattern(
    env: SpecEnv,
    w: Seq<char>,
    penv: SpecEnv,
    pexp: SpecExp,
    s: Seq<char>,
    t: Seq<char>,
    u: Seq<char>,
)
    requires
        env.lookup(w) == Some(SpecThunk(penv, pexp)),
        lazily_evaluates_to(penv, pexp, SpecData::Sym(t)),
    ensures
        lazily_evaluates_to(
            env,
            SpecExp::App(
                Box::new(SpecExp::Fun(Box::new(SpecExp::Sym(s)), Box::new(SpecExp::Sym(u)))),
                Box::new(SpecExp::Var(w)),
            ),
            if s == t {
                SpecData::Sym(u)
            } else {
                SpecData::Error(crate::model::SpecError::PatternMatchSym(s, t))
            },
        ),
{
    let g = choose|g: nat| #[trigger] lazy_within(g, penv, pexp) == Some(SpecData::Sym(t));
    let pat = SpecExp::Sym(s);
    let body = SpecExp::Sym(u);
    let fun = SpecExp::Fun(Box::new(pat), Box::new(body));
    let arg = SpecExp::Var(w);
    let result = if s == t {
        SpecData::Sym(u)
    } else {
        SpecData::Error(crate::model::SpecError::PatternMatchSym(s, t))
    };
    assert(lazy_within(g + 4, env, fun) == Some(SpecData::Fun(env, Box::new(pat), Box::new(body))));
    let env2 = env.extended(env);
    lemma_lookup_extended(env, env, w);
    assert(resolve_within(g + 1, env2, w) == Some(SpecData::Sym(t)));
    assert(lazy_within(g + 2, env2, arg) == Some(SpecData::Sym(t)));
    lemma_lift(g + 2, g + 3, env2, arg, SpecData::Sym(t));
    assert(lazy_within(g + 4, env2, body) == Some(SpecData::Sym(u)));
    if s == t {
        assert(match_within(g + 4, env2, pat, arg) == Some(Ok::<SpecEnv, crate::model::SpecError>(env2)));
    } else {
        assert(match_within(g + 4, env2, pat, arg) == Some(
            Err::<SpecEnv, crate::model::SpecError>(crate::model::SpecError::PatternMatchSym(s, t)),
        ));
    }
    assert(apply_within(g + 5, env, fun, arg) == Some(result));
    assert(lazy_within(g + 6, env, SpecExp::App(Box::new(fun), Box::new(arg))) == Some(result));
}

/// A variable as a pattern binds the argument, delayed in the environment
/// the match runs in, and leaves every other name as it was.
pub proof fn lemma_variable_pattern(f: nat, env: SpecEnv, x: Seq<char>, arg: SpecExp, n: Seq<char>)
    ensures
        match_within(f + 1, env, SpecExp::Var(x), arg) matches Some(Ok(e)) && e.lookup(x) == Some(
            SpecThunk(env, arg),
        ) && (n != x ==> e.lookup(n) == env.lookup(n)),
{
    lemma_lookup_inserted(env, x, SpecThunk(env, arg), x);
    lemma_lookup_inserted(env, x, SpecThunk(env, arg), n);
}

/// A name that the environment does not bind evaluates to the error that
/// it is undefined.
pub proof fn lemma_undefined_name(f: nat, env: SpecEnv, x: Seq<char>)
    requires
        env.lookup(x) is None,
    ensures
        lazy_within(f + 2, env, SpecExp::Var(x)) == Some(SpecData::Error(crate::model::SpecError::Undefined(x))),
{
    assert(resolve_within(f + 1, env, x) == Some(SpecData::Error(crate::model::SpecError::Undefined(x))));
}

/// A symbol cannot be applied: applying one gives the error that says so,
/// and an error applied to anything stays that error.
pub proof fn lemma_apply_non_function(f: nat, env: SpecEnv, s: Seq<char>, e: crate::model::SpecError, arg: SpecExp)
    ensures
        lazy_within(f + 3, env, SpecExp::App(Box::new(SpecExp::Sym(s)), Box::new(arg))) == Some(
            SpecData::Error(crate::model::SpecError::ApplySym(Box::new(SpecData::Sym(s)))),
        ),
        lazy_within(f + 3, env, SpecExp::App(Box::new(SpecExp::Error(e)), Box::new(arg))) == Some(
            SpecData::Error(e),
        ),
{
    assert(lazy_within(f + 1, env, SpecExp::Sym(s)) == Some(SpecData::Sym(s)));
    assert(lazy_within(f + 1, env, SpecExp::Error(e)) == Some(SpecData::Error(e)));
    assert(apply_within(f + 2, env, SpecExp::Sym(s), arg) == Some(
        SpecData::Error(crate::model::SpecError::ApplySym(Box::new(SpecData::Sym(s)))),
    ));
    assert(apply_within(f + 2, env, SpecExp::Error(e), arg) == Some(SpecData::Error(e)));
}

/// A pair pattern matches pairs alone: `(l, r) -> b` applied to a symbol
/// gives the error that the pattern does not fit the symbol.
pub proof fn lemma_pair_pattern_needs_a_pair(
    f: nat,
    env: SpecEnv,
    l: SpecExp,
    r: SpecExp,
    b: SpecExp,
    t: Seq<char>,
)
    ensures
        lazy_within(
            f + 4,
            env,
            SpecExp::App(
                Box::new(SpecExp::Fun(Box::new(SpecExp::Cons(Box::new(l), Box::new(r))), Box::new(b))),
                Box::new(SpecExp::Sym(t)),
            ),
        ) == Some(
            SpecData::Error(
                crate::model::SpecError::PatternMatchData(
                    Box::new(SpecExp::Cons(Box::new(l), Box::new(r))),
                    Box::new(SpecData::Sym(t)),
                ),
            ),
        ),
{
    let pat = SpecExp::Cons(Box::new(l), Box::new(r));
    let fun = SpecExp::Fun(Box::new(pat), Box::new(b));
    let env2 = env.extended(env);
    assert(lazy_within(f + 2, env, fun) == Some(SpecData::Fun(env, Box::new(pat), Box::new(b))));
    assert(lazy_within(f + 1, env2, SpecExp::Sym(t)) == Some(SpecData::Sym(t)));
    assert(match_within(f + 2, env2, pat, SpecExp::Sym(t)) == Some(
        Err::<SpecEnv, crate::model::SpecError>(
            crate::model::SpecError::PatternMatchData(Box::new(pat), Box::new(SpecData::Sym(t))),
        ),
    ));
    assert(apply_within(f + 3, env, fun, SpecExp::Sym(t)) == Some(
        SpecData::Error(
            crate::model::SpecError::PatternMatchData(Box::new(pat), Box::new(SpecData::Sym(t))),
        ),
    ));
}

} // verus!
