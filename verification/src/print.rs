use vstd::prelude::*;

use crate::debug::{debug_error, write_error};
use crate::exp::{Bexp, Exp, Op, Side};
use crate::model::{bexp_view, SpecBexp, SpecExp};

verus! {

/// The tree of operators an expression is written as, with parentheses
/// where precedence and associativity call for them.
pub open spec fn printed_tree(exp: SpecExp) -> SpecBexp
    decreases exp, 0int,
{
    match exp {
        SpecExp::Let(var, exp, body) => SpecBexp::Binary(
            Box::new(SpecBexp::Binary(
                Box::new(SpecBexp::Var(var)),
                Op::Equals,
                Box::new(parenthesized(*exp, Op::Equals, Side::Right)),
            )),
            Op::Semicolon,
            Box::new(parenthesized(*body, Op::Semicolon, Side::Right)),
        ),
        SpecExp::Cons(l, r) => SpecBexp::Binary(
            Box::new(parenthesized(*l, Op::Comma, Side::Left)),
            Op::Comma,
            Box::new(parenthesized(*r, Op::Comma, Side::Right)),
        ),
        SpecExp::Fun(pat, body) => SpecBexp::Binary(
            Box::new(parenthesized(*pat, Op::Arrow, Side::Left)),
            Op::Arrow,
            Box::new(parenthesized(*body, Op::Arrow, Side::Right)),
        ),
        SpecExp::App(l, r) => SpecBexp::Binary(
            Box::new(parenthesized(*l, Op::Empty, Side::Left)),
            Op::Empty,
            Box::new(parenthesized(*r, Op::Empty, Side::Right)),
        ),
        SpecExp::Var(var) => SpecBexp::Var(var),
        SpecExp::Sym(sym) => SpecBexp::Sym(sym),
        SpecExp::Error(e) => SpecBexp::Error(e),
    }
}

/// An operand of `parent` on the given side needs parentheses where its
/// operator binds looser than `parent`, or equally and associates to the
/// other side.
pub open spec fn needs_parens(op: Op, parent: Op, side: Side) -> bool {
    op.level() < parent.level() || (op == parent && op.associativity() != side)
}

/// The tree of `exp` as an operand of `parent` on `side`.
pub open spec fn parenthesized(exp: SpecExp, parent: Op, side: Side) -> SpecBexp
    decreases exp, 1int,
{
    let b = printed_tree(exp);
    match b {
        SpecBexp::Binary(_, op, _) => if needs_parens(op, parent, side) {
            SpecBexp::Parens(Box::new(b))
        } else {
            b
        },
        _ => b,
    }
}

/// How an operator is written.
pub open spec fn op_text(op: Op) -> Seq<char> {
    match op {
        Op::Semicolon => "; "@,
        Op::Equals => " == "@,
        Op::Comma => ", "@,
        Op::Arrow => " -> "@,
        Op::Empty => " "@,
    }
}

/// The text of a tree of operators; an error is written as `{:?}` writes
/// it.
pub open spec fn tree_text(b: SpecBexp) -> Seq<char>
    decreases b,
{
    match b {
        SpecBexp::Binary(l, op, r) => tree_text(*l) + op_text(op) + tree_text(*r),
        SpecBexp::Parens(x) => "("@ + tree_text(*x) + ")"@,
        SpecBexp::Var(var) => var,
        SpecBexp::Sym(sym) => ":"@ + sym,
        SpecBexp::Error(e) => debug_error(e),
    }
}

/// The text of an expression.
pub open spec fn printed(exp: SpecExp) -> Seq<char> {
    tree_text(printed_tree(exp))
}

/// A binding is written `v == value; body`. The value is put in
/// parentheses exactly where it is itself a binding, so that its text ends
/// before the `;` of the binding around it; the body never is.
pub proof fn lemma_printed_let(v: Seq<char>, e: SpecExp, b: SpecExp)
    ensures
        printed(SpecExp::Let(v, Box::new(e), Box::new(b))) == v + " == "@ + (if e is Let {
            "("@ + printed(e) + ")"@
        } else {
            printed(e)
        }) + "; "@ + printed(b),
{
    let t = printed_tree(SpecExp::Let(v, Box::new(e), Box::new(b)));
    assert(tree_text(parenthesized(b, Op::Semicolon, Side::Right)) == printed(b));
    assert(tree_text(parenthesized(e, Op::Equals, Side::Right)) == if e is Let {
        "("@ + printed(e) + ")"@
    } else {
        printed(e)
    });
    assert(tree_text(SpecBexp::Var(v)) == v);
    let inner = SpecBexp::Binary(
        Box::new(SpecBexp::Var(v)),
        Op::Equals,
        Box::new(parenthesized(e, Op::Equals, Side::Right)),
    );
    assert(t == SpecBexp::Binary(
        Box::new(inner),
        Op::Semicolon,
        Box::new(parenthesized(b, Op::Semicolon, Side::Right)),
    ));
    assert(tree_text(inner) == v + " == "@ + tree_text(parenthesized(e, Op::Equals, Side::Right)));
    assert(printed(SpecExp::Let(v, Box::new(e), Box::new(b))) == tree_text(t));
    assert(tree_text(t) == v + " == "@ + tree_text(parenthesized(e, Op::Equals, Side::Right)) + "; "@
        + tree_text(parenthesized(b, Op::Semicolon, Side::Right)));
}

/// `t` in parentheses where `c` holds.
pub open spec fn parens_if(c: bool, t: Seq<char>) -> Seq<char> {
    if c {
        "("@ + t + ")"@
    } else {
        t
    }
}

/// How pairs, functions and applications are written: operands in
/// parentheses exactly where they would otherwise be read another way.
/// Pairs and functions group to the right and application to the left, so
/// `a, b, c` is `a, (b, c)`, `x -> y -> z` is `x -> (y -> z)` and `f a b` is
/// `(f a) b`; a binding is always put in parentheses, a pair inside a
/// function or an application, and a function inside an application.
pub proof fn lemma_printed_operands(l: SpecExp, r: SpecExp)
    ensures
        printed(SpecExp::Cons(Box::new(l), Box::new(r))) == parens_if(l is Let || l is Cons, printed(l))
            + ", "@ + parens_if(r is Let, printed(r)),
        printed(SpecExp::Fun(Box::new(l), Box::new(r))) == parens_if(
            l is Let || l is Cons || l is Fun,
            printed(l),
        ) + " -> "@ + parens_if(r is Let || r is Cons, printed(r)),
        printed(SpecExp::App(Box::new(l), Box::new(r))) == parens_if(
            l is Let || l is Cons || l is Fun,
            printed(l),
        ) + " "@ + parens_if(r is Let || r is Cons || r is Fun || r is App, printed(r)),
{
    assert(tree_text(parenthesized(l, Op::Comma, Side::Left)) == parens_if(l is Let || l is Cons, printed(l)));
    assert(tree_text(parenthesized(r, Op::Comma, Side::Right)) == parens_if(r is Let, printed(r)));
    assert(tree_text(parenthesized(l, Op::Arrow, Side::Left)) == parens_if(
        l is Let || l is Cons || l is Fun,
        printed(l),
    ));
    assert(tree_text(parenthesized(r, Op::Arrow, Side::Right)) == parens_if(r is Let || r is Cons, printed(r)));
    assert(tree_text(parenthesized(l, Op::Empty, Side::Left)) == parens_if(
        l is Let || l is Cons || l is Fun,
        printed(l),
    ));
    assert(tree_text(parenthesized(r, Op::Empty, Side::Right)) == parens_if(
        r is Let || r is Cons || r is Fun || r is App,
        printed(r),
    ));
}

/// Writes an expression as text.
pub fn print(exp: Exp) -> (text: String)
    ensures
        text@ == printed(exp@),
{
    print_bexp(print_exp(exp))
}

fn print_exp(exp: Exp) -> (b: Bexp)
    ensures
        b@ == printed_tree(exp@),
    decreases exp@, 0int,
{
    proof {
        reveal_with_fuel(bexp_view, 3);
    }
    match exp {
        Exp::Let(var, exp, body) => Bexp::Binary(
            Box::new(Bexp::Binary(
                Box::new(Bexp::Var(var)),
                Op::Equals,
                Box::new(with_parens(*exp, Op::Equals, Side::Right)),
            )),
            Op::Semicolon,
            Box::new(with_parens(*body, Op::Semicolon, Side::Right)),
        ),
        Exp::Cons(l, r) => Bexp::Binary(
            Box::new(with_parens(*l, Op::Comma, Side::Left)),
            Op::Comma,
            Box::new(with_parens(*r, Op::Comma, Side::Right)),
        ),
        Exp::Fun(pat, body) => Bexp::Binary(
            Box::new(with_parens(*pat, Op::Arrow, Side::Left)),
            Op::Arrow,
            Box::new(with_parens(*body, Op::Arrow, Side::Right)),
        ),
        Exp::App(l, r) => Bexp::Binary(
            Box::new(with_parens(*l, Op::Empty, Side::Left)),
            Op::Empty,
            Box::new(with_parens(*r, Op::Empty, Side::Right)),
        ),
        Exp::Var(var) => Bexp::Var(var),
        Exp::Sym(sym) => Bexp::Sym(sym),
        Exp::Error(e) => Bexp::Error(e),
    }
}

fn with_parens(exp: Exp, parent: Op, side: Side) -> (b: Bexp)
    ensures
        b@ == parenthesized(exp@, parent, side),
    decreases exp@, 1int,
{
    let bexp = print_exp(exp);
    match bexp {
        Bexp::Binary(l, op, r) => {
            if op.precedence() < parent.precedence() || (op == parent && op.assoc() != side) {
                Bexp::Parens(Box::new(Bexp::Binary(l, op, r)))
            } else {
                Bexp::Binary(l, op, r)
            }
        },
        bexp => bexp,
    }
}

fn print_bexp(exp: Bexp) -> (text: String)
    ensures
        text@ == tree_text(exp@),
{
    let mut out = String::new();
    write_bexp(&mut out, &exp);
    out
}

fn write_bexp(out: &mut String, exp: &Bexp)
    ensures
        final(out)@ == old(out)@ + tree_text(exp@),
    decreases exp,
{
    let ghost start = out@;
    match exp {
        Bexp::Binary(l, op, r) => {
            write_bexp(out, l);
            out.append(print_op(*op));
            write_bexp(out, r);
        },
        Bexp::Parens(bexp) => {
            out.append("(");
            write_bexp(out, bexp);
            out.append(")");
        },
        Bexp::Var(var) => {
            out.append(var.as_str());
        },
        Bexp::Sym(sym) => {
            out.append(":");
            out.append(sym.as_str());
        },
        Bexp::Error(e) => {
            write_error(out, e);
        },
    }
    proof {
        assert(out@ =~= start + tree_text(exp@));
    }
}

fn print_op(op: Op) -> (text: &'static str)
    ensures
        text@ == op_text(op),
{
    match op {
        Op::Semicolon => "; ",
        Op::Equals => " == ",
        Op::Comma => ", ",
        Op::Arrow => " -> ",
        Op::Empty => " ",
    }
}

} // verus!
