use vstd::prelude::*;

use crate::exp::Op;
use crate::grammar::{
    atom_at, exp_of_bexp, group_at, insert_op, lemma_ident_end, left_associated, parse_tree,
    reassociated, tail_at,
};
use crate::model::{SpecBexp, SpecData, SpecDeep, SpecEnv, SpecExp, SpecThunk};
use crate::parse::parse_spec;
use crate::reparse::is_name;
use crate::semantics::{
    apply_within, bound, deep_within, eval_within, lazy_within, match_both, match_within,
    resolve_within,
};

verus! {

// Every symbol that a parsed program holds is a name, and evaluation makes
// no new symbols: it only passes on those of the program. So every symbol
// in the value of a parsed program is a name. Symbols inside error values
// are not looked at: an error never becomes a symbol again.

/// Every symbol of the expression, outside errors, is a name.
pub open spec fn exp_syms_named(e: SpecExp) -> bool
    decreases e,
{
    match e {
        SpecExp::Let(_, x, b) => exp_syms_named(*x) && exp_syms_named(*b),
        SpecExp::Cons(l, r) => exp_syms_named(*l) && exp_syms_named(*r),
        SpecExp::Fun(l, r) => exp_syms_named(*l) && exp_syms_named(*r),
        SpecExp::App(l, r) => exp_syms_named(*l) && exp_syms_named(*r),
        SpecExp::Var(_) => true,
        SpecExp::Sym(s) => is_name(s),
        SpecExp::Error(_) => true,
    }
}

/// Every symbol of the delayed expressions of the environment is a name.
pub open spec fn env_syms_named(env: SpecEnv) -> bool
    decreases env,
{
    match env {
        SpecEnv::Empty => true,
        SpecEnv::Bind(_, t, rest) => env_syms_named(t.0) && exp_syms_named(t.1) && env_syms_named(*rest),
    }
}

/// Every symbol of head form data, outside errors, is a name.
pub open spec fn data_syms_named(d: SpecData) -> bool {
    match d {
        SpecData::Cons(env, l, r) => env_syms_named(env) && exp_syms_named(*l) && exp_syms_named(*r),
        SpecData::Fun(env, l, r) => env_syms_named(env) && exp_syms_named(*l) && exp_syms_named(*r),
        SpecData::Sym(s) => is_name(s),
        SpecData::Error(_) => true,
    }
}

/// Every symbol of a value, outside errors, is a name.
pub open spec fn deep_syms_named(d: SpecDeep) -> bool
    decreases d,
{
    match d {
        SpecDeep::Cons(l, r) => deep_syms_named(*l) && deep_syms_named(*r),
        SpecDeep::Fun(env, l, r) => env_syms_named(env) && exp_syms_named(*l) && exp_syms_named(*r),
        SpecDeep::Sym(s) => is_name(s),
        SpecDeep::Error(_) => true,
    }
}

/// Every symbol of a tree of operators, outside errors, is a name.
pub open spec fn bexp_syms_named(b: SpecBexp) -> bool
    decreases b,
{
    match b {
        SpecBexp::Binary(l, _, r) => bexp_syms_named(*l) && bexp_syms_named(*r),
        SpecBexp::Parens(x) => bexp_syms_named(*x),
        SpecBexp::Var(_) => true,
        SpecBexp::Sym(s) => is_name(s),
        SpecBexp::Error(_) => true,
    }
}

proof fn lemma_lookup_named(env: SpecEnv, name: Seq<char>)
    requires
        env_syms_named(env),
    ensures
        env.lookup(name) matches Some(t) ==> env_syms_named(t.0) && exp_syms_named(t.1),
    decreases env,
{
    match env {
        SpecEnv::Empty => {},
        SpecEnv::Bind(_, _, rest) => lemma_lookup_named(*rest, name),
    }
}

proof fn lemma_without_named(env: SpecEnv, name: Seq<char>)
    requires
        env_syms_named(env),
    ensures
        env_syms_named(env.without(name)),
    decreases env,
{
    match env {
        SpecEnv::Empty => {},
        SpecEnv::Bind(_, _, rest) => lemma_without_named(*rest, name),
    }
}

proof fn lemma_inserted_named(env: SpecEnv, name: Seq<char>, t: SpecThunk)
    requires
        env_syms_named(env),
        env_syms_named(t.0),
        exp_syms_named(t.1),
    ensures
        env_syms_named(env.inserted(name, t)),
{
    lemma_without_named(env, name);
}

proof fn lemma_extended_named(env: SpecEnv, other: SpecEnv)
    requires
        env_syms_named(env),
        env_syms_named(other),
    ensures
        env_syms_named(env.extended(other)),
    decreases other,
{
    match other {
        SpecEnv::Empty => {},
        SpecEnv::Bind(k, t, rest) => {
            lemma_extended_named(env, *rest);
            lemma_inserted_named(env.extended(*rest), k, *t);
        },
    }
}

proof fn lemma_bound_named(env: SpecEnv, var: Seq<char>, e: SpecExp)
    requires
        env_syms_named(env),
        exp_syms_named(e),
    ensures
        env_syms_named(bound(env, var, e)),
{
    lemma_inserted_named(env, var, SpecThunk(env, e));
}

/// Evaluation makes no symbol that is not a name.
pub proof fn lemma_eval_named(f: nat, env: SpecEnv, e: SpecExp)
    requires
        env_syms_named(env),
        exp_syms_named(e),
        eval_within(f, env, e) is Some,
    ensures
        deep_syms_named(eval_within(f, env, e)->0),
    decreases f, 0int,
{
    let f1 = (f - 1) as nat;
    lemma_lazy_named(f1, env, e);
    lemma_deep_named(f1, lazy_within(f1, env, e)->0);
}

proof fn lemma_deep_named(f: nat, data: SpecData)
    requires
        data_syms_named(data),
        deep_within(f, data) is Some,
    ensures
        deep_syms_named(deep_within(f, data)->0),
    decreases f, 0int,
{
    let f1 = (f - 1) as nat;
    match data {
        SpecData::Cons(env, l, r) => {
            lemma_eval_named(f1, env, *l);
            lemma_eval_named(f1, env, *r);
        },
        _ => {},
    }
}

proof fn lemma_lazy_named(f: nat, env: SpecEnv, e: SpecExp)
    requires
        env_syms_named(env),
        exp_syms_named(e),
        lazy_within(f, env, e) is Some,
    ensures
        data_syms_named(lazy_within(f, env, e)->0),
    decreases f, 0int,
{
    let f1 = (f - 1) as nat;
    match e {
        SpecExp::Let(var, x, body) => {
            lemma_bound_named(env, var, *x);
            lemma_lazy_named(f1, bound(env, var, *x), *body);
        },
        SpecExp::App(fun, arg) => lemma_apply_named(f1, env, *fun, *arg),
        SpecExp::Var(var) => lemma_resolve_named(f1, env, var),
        _ => {},
    }
}

proof fn lemma_resolve_named(f: nat, env: SpecEnv, var: Seq<char>)
    requires
        env_syms_named(env),
        resolve_within(f, env, var) is Some,
    ensures
        data_syms_named(resolve_within(f, env, var)->0),
    decreases f, 0int,
{
    lemma_lookup_named(env, var);
    match env.lookup(var) {
        Some(SpecThunk(tenv, texp)) => lemma_lazy_named((f - 1) as nat, tenv, texp),
        None => {},
    }
}

proof fn lemma_apply_named(f: nat, env: SpecEnv, fun: SpecExp, arg: SpecExp)
    requires
        env_syms_named(env),
        exp_syms_named(fun),
        exp_syms_named(arg),
        apply_within(f, env, fun, arg) is Some,
    ensures
        data_syms_named(apply_within(f, env, fun, arg)->0),
    decreases f, 0int,
{
    let f1 = (f - 1) as nat;
    lemma_lazy_named(f1, env, fun);
    match lazy_within(f1, env, fun) {
        Some(SpecData::Cons(cons_env, l, r)) => {
            let env2 = env.extended(cons_env);
            lemma_extended_named(env, cons_env);
            lemma_apply_named(f1, env2, *l, arg);
            match apply_within(f1, env2, *l, arg) {
                Some(SpecData::Error(_)) => lemma_apply_named(f1, env2, *r, arg),
                _ => {},
            }
        },
        Some(SpecData::Fun(fun_env, pat, body)) => {
            let env2 = env.extended(fun_env);
            lemma_extended_named(env, fun_env);
            match match_within(f1, env2, *pat, arg) {
                Some(Ok(env3)) => {
                    lemma_match_named(f1, env2, *pat, arg);
                    lemma_lazy_named(f1, env3, *body);
                },
                _ => {},
            }
        },
        _ => {},
    }
}

proof fn lemma_match_both_named(
    f: nat,
    env: SpecEnv,
    pat1: SpecExp,
    arg1: SpecExp,
    env2: SpecEnv,
    pat2: SpecExp,
    arg2: SpecExp,
)
    requires
        env_syms_named(env),
        env_syms_named(env2),
        exp_syms_named(pat1),
        exp_syms_named(arg1),
        exp_syms_named(pat2),
        exp_syms_named(arg2),
        match_both(f, env, pat1, arg1, env2, pat2, arg2) matches Some(Ok(_)),
    ensures
        match_both(f, env, pat1, arg1, env2, pat2, arg2) matches Some(Ok(e)) && env_syms_named(e),
    decreases f, 1int,
{
    lemma_match_named(f, env, pat1, arg1);
    lemma_match_named(f, env2, pat2, arg2);
    match (match_within(f, env, pat1, arg1), match_within(f, env2, pat2, arg2)) {
        (Some(Ok(e1)), Some(Ok(e2))) => lemma_extended_named(e1, e2),
        _ => {},
    }
}

proof fn lemma_match_named(f: nat, env: SpecEnv, pat: SpecExp, arg: SpecExp)
    requires
        env_syms_named(env),
        exp_syms_named(pat),
        exp_syms_named(arg),
    ensures
        match_within(f, env, pat, arg) matches Some(Ok(e)) ==> env_syms_named(e),
    decreases f, 0int,
{
    if f == 0 {
        return;
    }
    let f1 = (f - 1) as nat;
    match pat {
        SpecExp::Let(var, exp, body) => match arg {
            SpecExp::Let(_, arg_exp, arg_body) => {
                if match_both(f1, env, *exp, *arg_exp, env, *body, *arg_body) matches Some(Ok(_)) {
                    lemma_match_both_named(f1, env, *exp, *arg_exp, env, *body, *arg_body);
                }
            },
            _ => {},
        },
        SpecExp::Cons(l, r) => {
            match lazy_within(f1, env, arg) {
                Some(SpecData::Cons(arg_env, arg_l, arg_r)) => {
                    lemma_lazy_named(f1, env, arg);
                    let env2 = env.extended(arg_env);
                    lemma_extended_named(env, arg_env);
                    if match_both(f1, env2, *l, *arg_l, env2, *r, *arg_r) matches Some(Ok(_)) {
                        lemma_match_both_named(f1, env2, *l, *arg_l, env2, *r, *arg_r);
                    }
                },
                _ => {},
            }
        },
        SpecExp::Fun(p, b) => {
            match lazy_within(f1, env, arg) {
                Some(SpecData::Fun(arg_env, arg_p, arg_b)) => {
                    lemma_lazy_named(f1, env, arg);
                    let env2 = env.extended(arg_env);
                    lemma_extended_named(env, arg_env);
                    if match_both(f1, env2, *p, *arg_p, env2, *b, *arg_b) matches Some(Ok(_)) {
                        lemma_match_both_named(f1, env2, *p, *arg_p, env2, *b, *arg_b);
                    }
                },
                _ => {},
            }
        },
        SpecExp::App(l, r) => match arg {
            SpecExp::App(arg_l, arg_r) => {
                if match_both(f1, env, *l, *arg_l, env, *r, *arg_r) matches Some(Ok(_)) {
                    lemma_match_both_named(f1, env, *l, *arg_l, env, *r, *arg_r);
                }
            },
            _ => {},
        },
        SpecExp::Var(var) => lemma_bound_named(env, var, arg),
        _ => {},
    }
}

proof fn lemma_insert_op_named(left: SpecBexp, op: Op, right: SpecBexp)
    requires
        bexp_syms_named(left),
        bexp_syms_named(right),
    ensures
        bexp_syms_named(insert_op(left, op, right)),
    decreases left,
{
    match left {
        SpecBexp::Binary(_, _, b) => lemma_insert_op_named(*b, op, right),
        _ => {},
    }
}

proof fn lemma_reassociated_named(b: SpecBexp)
    requires
        bexp_syms_named(b),
    ensures
        bexp_syms_named(reassociated(b)),
    decreases b,
{
    match b {
        SpecBexp::Binary(l, op, r) => {
            lemma_reassociated_named(*l);
            lemma_reassociated_named(*r);
            lemma_insert_op_named(reassociated(*l), op, reassociated(*r));
        },
        _ => {},
    }
}

proof fn lemma_left_associated_named(first: SpecBexp, rest: Seq<(Op, SpecBexp)>)
    requires
        bexp_syms_named(first),
        forall|i: int| 0 <= i < rest.len() ==> bexp_syms_named(#[trigger] rest[i].1),
    ensures
        bexp_syms_named(left_associated(first, rest)),
    decreases rest.len(),
{
    if rest.len() > 0 {
        lemma_left_associated_named(first, rest.drop_last());
        assert(bexp_syms_named(rest[rest.len() - 1].1));
    }
}

proof fn lemma_atom_named(s: Seq<char>, i: int)
    ensures
        atom_at(s, i) matches Some((b, _)) ==> bexp_syms_named(b),
    decreases s.len() - i, 0int,
{
    if 0 <= i < s.len() && s[i] == '(' {
        if i + 1 <= s.len() {
            lemma_group_named(s, i + 1);
        }
    } else if 0 <= i < s.len() && s[i] == ':' {
        lemma_ident_end(s, i + 1);
        let e = crate::grammar::ident_end(s, i + 1);
        let name = s.subrange(i + 1, e);
        if i + 1 < e <= s.len() {
            assert forall|k: int| 0 <= k < name.len() implies crate::grammar::is_ident_char(#[trigger] name[k]) by {
                assert(name[k] == s[i + 1 + k]);
            }
        }
    }
}

proof fn lemma_tail_named(s: Seq<char>, k: int)
    ensures
        forall|i: int| 0 <= i < tail_at(s, k).0.len() ==> bexp_syms_named(#[trigger] tail_at(s, k).0[i].1),
    decreases s.len() - k, 1int,
{
    let j1 = crate::grammar::junk_end(s, k);
    let (op, j2) = crate::grammar::op_at(s, j1);
    let j3 = crate::grammar::junk_end(s, j2);
    if k <= j3 <= s.len() {
        match atom_at(s, j3) {
            Some((b, j4)) => if j3 < j4 <= s.len() {
                lemma_atom_named(s, j3);
                lemma_tail_named(s, j4);
                let t = tail_at(s, k).0;
                let more = tail_at(s, j4).0;
                assert(t == seq![(op, b)] + more);
                assert forall|i: int| 0 <= i < t.len() implies bexp_syms_named(#[trigger] t[i].1) by {
                    if i > 0 {
                        assert(t[i] == more[i - 1]);
                    }
                }
            },
            None => {},
        }
    }
}

proof fn lemma_group_named(s: Seq<char>, i: int)
    ensures
        group_at(s, i) matches Some((b, _)) ==> bexp_syms_named(b),
    decreases s.len() - i, 2int,
{
    let j0 = crate::grammar::junk_end(s, i);
    if 0 <= i <= j0 <= s.len() {
        match atom_at(s, j0) {
            Some((first, k)) => if j0 < k <= s.len() {
                lemma_atom_named(s, j0);
                lemma_tail_named(s, k);
                let rest = tail_at(s, k).0;
                lemma_left_associated_named(first, rest);
                lemma_reassociated_named(left_associated(first, rest));
            },
            None => {},
        }
    }
}

proof fn lemma_exp_of_bexp_named(b: SpecBexp)
    requires
        bexp_syms_named(b),
    ensures
        exp_syms_named(exp_of_bexp(b)),
    decreases b,
{
    match b {
        SpecBexp::Binary(l, op, r) => {
            lemma_exp_of_bexp_named(*r);
            assert(bexp_syms_named(*l));
            match *l {
                SpecBexp::Binary(a, _, x) => {
                    assert(bexp_syms_named(*a) && bexp_syms_named(*x));
                    lemma_exp_of_bexp_named(*x);
                },
                _ => {},
            }
            lemma_exp_of_bexp_named(*l);
        },
        SpecBexp::Parens(x) => lemma_exp_of_bexp_named(*x),
        _ => {},
    }
}

/// Every symbol of a parsed program, outside errors, is a name.
pub proof fn lemma_parse_named(text: Seq<char>)
    ensures
        exp_syms_named(parse_spec(text)),
{
    lemma_group_named(text, 0);
    match parse_tree(text) {
        Ok(b) => lemma_exp_of_bexp_named(b),
        Err(_) => {},
    }
}

} // verus!
