use vstd::prelude::*;

use crate::exp::{Op, Side};
use crate::grammar::{
    atom_at, binds_over, exp_of_bexp, group_at, ident_end, insert_op, is_ident_char, is_space,
    junk_end, left_associated, op_at, parse_tree, reassociated, tail_at,
};
use crate::model::{SpecBexp, SpecExp};
use crate::parse::parse_spec;
use crate::print::{needs_parens, op_text, parenthesized, printed, printed_tree, tree_text};

verus! {

// What the printer writes, the parser reads back: the text of a tree of
// operators is its first operand followed by operators and operands, and
// the parser rebuilds from these the tree it was printed from.

/// The first operand of a tree of operators, parentheses not looked into.
pub open spec fn first_operand(b: SpecBexp) -> SpecBexp
    decreases b,
{
    match b {
        SpecBexp::Binary(l, _, _) => first_operand(*l),
        _ => b,
    }
}

/// The operators of a tree of operators, each with the operand after it,
/// in the order of the text.
pub open spec fn later_operands(b: SpecBexp) -> Seq<(Op, SpecBexp)>
    decreases b,
{
    match b {
        SpecBexp::Binary(l, op, r) => later_operands(*l) + seq![(op, first_operand(*r))] + later_operands(*r),
        _ => seq![],
    }
}

/// A tree that the parser builds as it stands: no operator has as its left
/// operand a tree whose operator it binds over, and each has as its right
/// operand only trees whose operators bind over it.
pub open spec fn proper(b: SpecBexp) -> bool
    decreases b,
{
    match b {
        SpecBexp::Binary(l, op, r) => {
            &&& proper(*l)
            &&& proper(*r)
            &&& (match *l {
                SpecBexp::Binary(_, lop, _) => !binds_over(op, lop),
                _ => true,
            })
            &&& (match *r {
                SpecBexp::Binary(_, rop, _) => binds_over(rop, op),
                _ => true,
            })
        },
        _ => true,
    }
}

/// Operands one after the other inserted by precedence into a tree.
pub open spec fn insert_all(t: SpecBexp, p: Seq<(Op, SpecBexp)>) -> SpecBexp
    decreases p.len(),
{
    if p.len() == 0 {
        t
    } else {
        insert_op(insert_all(t, p.drop_last()), p.last().0, p.last().1)
    }
}

/// No operand is itself a tree of operators.
pub open spec fn atomic(p: Seq<(Op, SpecBexp)>) -> bool {
    forall|k: int| 0 <= k < p.len() ==> !((#[trigger] p[k]).1 is Binary)
}

proof fn lemma_atomic_concat(p: Seq<(Op, SpecBexp)>, q: Seq<(Op, SpecBexp)>)
    requires
        atomic(p),
        atomic(q),
    ensures
        atomic(p + q),
{
    assert forall|k: int| 0 <= k < (p + q).len() implies !((#[trigger] (p + q)[k]).1 is Binary) by {
        if k < p.len() {
            assert((p + q)[k] == p[k]);
        } else {
            assert((p + q)[k] == q[k - p.len()]);
        }
    }
}

/// The operands of a tree are no trees of operators themselves.
proof fn lemma_operands_atomic(b: SpecBexp)
    ensures
        !(first_operand(b) is Binary),
        atomic(later_operands(b)),
    decreases b,
{
    match b {
        SpecBexp::Binary(l, op, r) => {
            lemma_operands_atomic(*l);
            lemma_operands_atomic(*r);
            let one = seq![(op, first_operand(*r))];
            assert(atomic(one)) by {
                assert forall|k: int| 0 <= k < one.len() implies !((#[trigger] one[k]).1 is Binary) by {
                    assert(one[k] == (op, first_operand(*r)));
                }
            }
            lemma_atomic_concat(later_operands(*l), one);
            lemma_atomic_concat(later_operands(*l) + one, later_operands(*r));
        },
        _ => {},
    }
}

/// Rebuilding a left chain of atomic operands inserts them one by one.
proof fn lemma_reassociated_left_chain(first: SpecBexp, p: Seq<(Op, SpecBexp)>)
    requires
        !(first is Binary),
        atomic(p),
    ensures
        reassociated(left_associated(first, p)) == insert_all(first, p),
    decreases p.len(),
{
    if p.len() > 0 {
        let q = p.drop_last();
        assert(atomic(q)) by {
            assert forall|k: int| 0 <= k < q.len() implies !((#[trigger] q[k]).1 is Binary) by {
                assert(q[k] == p[k]);
            }
        }
        lemma_reassociated_left_chain(first, q);
        assert(p.last() == p[p.len() - 1]);
        assert(reassociated(p.last().1) == p.last().1);
    }
}

proof fn lemma_insert_all_concat(t: SpecBexp, p: Seq<(Op, SpecBexp)>, q: Seq<(Op, SpecBexp)>)
    ensures
        insert_all(t, p + q) == insert_all(insert_all(t, p), q),
    decreases q.len(),
{
    if q.len() == 0 {
        assert(p + q =~= p);
    } else {
        lemma_insert_all_concat(t, p, q.drop_last());
        assert((p + q).drop_last() =~= p + q.drop_last());
        assert((p + q).last() == q.last());
    }
}

/// Operands whose operators bind over the top operator go into its right
/// operand.
proof fn lemma_insert_all_right(l: SpecBexp, op: Op, x: SpecBexp, q: Seq<(Op, SpecBexp)>)
    requires
        forall|k: int| 0 <= k < q.len() ==> binds_over((#[trigger] q[k]).0, op),
    ensures
        insert_all(SpecBexp::Binary(Box::new(l), op, Box::new(x)), q)
            == SpecBexp::Binary(Box::new(l), op, Box::new(insert_all(x, q))),
    decreases q.len(),
{
    if q.len() > 0 {
        lemma_insert_all_right(l, op, x, q.drop_last());
        assert(q.last() == q[q.len() - 1]);
    }
}

/// The operators of a proper tree bind at least as tightly as its top one.
proof fn lemma_levels(b: SpecBexp)
    requires
        proper(b),
    ensures
        b matches SpecBexp::Binary(_, top, _) ==> forall|k: int|
            0 <= k < later_operands(b).len() ==> (#[trigger] later_operands(b)[k]).0.level() >= top.level(),
    decreases b,
{
    match b {
        SpecBexp::Binary(l, top, r) => {
            lemma_levels(*l);
            lemma_levels(*r);
            let p = later_operands(b);
            let pl = later_operands(*l);
            let pr = later_operands(*r);
            assert(p == pl + seq![(top, first_operand(*r))] + pr);
            assert forall|k: int| 0 <= k < p.len() implies (#[trigger] p[k]).0.level() >= top.level() by {
                if k < pl.len() {
                    assert(p[k] == pl[k]);
                    match *l {
                        SpecBexp::Binary(_, lop, _) => {
                            assert(pl[k].0.level() >= lop.level());
                        },
                        _ => {},
                    }
                } else if k == pl.len() {
                    assert(p[k] == (top, first_operand(*r)));
                } else {
                    assert(p[k] == pr[k - pl.len() - 1]);
                    match *r {
                        SpecBexp::Binary(_, rop, _) => {
                            assert(pr[k - pl.len() - 1].0.level() >= rop.level());
                        },
                        _ => {},
                    }
                }
            }
        },
        _ => {},
    }
}

/// A proper tree is rebuilt from its operands by inserting them one by one.
proof fn lemma_insert_all_operands(b: SpecBexp)
    requires
        proper(b),
    ensures
        insert_all(first_operand(b), later_operands(b)) == b,
    decreases b,
{
    match b {
        SpecBexp::Binary(l, op, r) => {
            lemma_insert_all_operands(*l);
            lemma_insert_all_operands(*r);
            lemma_levels(*r);
            let pl = later_operands(*l);
            let one = seq![(op, first_operand(*r))];
            let pr = later_operands(*r);
            assert(later_operands(b) == pl + one + pr);
            lemma_insert_all_concat(first_operand(*l), pl + one, pr);
            lemma_insert_all_concat(first_operand(*l), pl, one);
            assert(one.drop_last() =~= Seq::<(Op, SpecBexp)>::empty());
            assert(insert_all(*l, one.drop_last()) == *l);
            assert(one.last() == (op, first_operand(*r)));
            assert(insert_all(*l, one) == insert_op(*l, op, first_operand(*r)));
            assert(insert_op(*l, op, first_operand(*r)) == SpecBexp::Binary(l, op, Box::new(first_operand(*r))));
            assert forall|k: int| 0 <= k < pr.len() implies binds_over((#[trigger] pr[k]).0, op) by {
                match *r {
                    SpecBexp::Binary(_, rop, _) => {
                        assert(pr[k].0.level() >= rop.level());
                    },
                    _ => {},
                }
            }
            lemma_insert_all_right(*l, op, first_operand(*r), pr);
        },
        _ => {},
    }
}


/// A name: one or more letters, digits or underscores.
pub open spec fn is_name(s: Seq<char>) -> bool {
    s.len() > 0 && forall|i: int| 0 <= i < s.len() ==> is_ident_char(#[trigger] s[i])
}

/// An expression without bindings or errors, whose names and symbols are
/// names: the expressions the printer writes in the syntax of the parser.
pub open spec fn is_plain(e: SpecExp) -> bool
    decreases e,
{
    match e {
        SpecExp::Var(v) => is_name(v),
        SpecExp::Sym(s) => is_name(s),
        SpecExp::Cons(l, r) => is_plain(*l) && is_plain(*r),
        SpecExp::Fun(l, r) => is_plain(*l) && is_plain(*r),
        SpecExp::App(l, r) => is_plain(*l) && is_plain(*r),
        _ => false,
    }
}

/// The height of an expression tree.
pub open spec fn height(e: SpecExp) -> nat
    decreases e,
{
    match e {
        SpecExp::Let(_, l, r) => 1 + if height(*l) >= height(*r) {
            height(*l)
        } else {
            height(*r)
        },
        SpecExp::Cons(l, r) => 1 + if height(*l) >= height(*r) {
            height(*l)
        } else {
            height(*r)
        },
        SpecExp::Fun(l, r) => 1 + if height(*l) >= height(*r) {
            height(*l)
        } else {
            height(*r)
        },
        SpecExp::App(l, r) => 1 + if height(*l) >= height(*r) {
            height(*l)
        } else {
            height(*r)
        },
        _ => 0,
    }
}

/// The operators that plain expressions are written with.
pub open spec fn is_plain_op(op: Op) -> bool {
    op == Op::Comma || op == Op::Arrow || op == Op::Empty
}

/// An operand as the printer writes it: a name, a symbol, or a plain
/// expression lower than `h` in parentheses.
pub open spec fn good_operand(a: SpecBexp, h: nat) -> bool {
    ||| (a matches SpecBexp::Var(v) && is_name(v))
    ||| (a matches SpecBexp::Sym(x) && is_name(x))
    ||| exists|x: SpecExp|
        is_plain(x) && height(x) < h && a == SpecBexp::Parens(Box::new(#[trigger] printed_tree(x)))
}

/// Operators and operands as the printer writes them.
pub open spec fn good_operands(p: Seq<(Op, SpecBexp)>, h: nat) -> bool {
    forall|k: int| 0 <= k < p.len() ==> is_plain_op((#[trigger] p[k]).0) && good_operand(p[k].1, h)
}

/// The text of operators and operands that follow a first operand.
pub open spec fn operands_text(p: Seq<(Op, SpecBexp)>) -> Seq<char>
    decreases p.len(),
{
    if p.len() == 0 {
        Seq::empty()
    } else {
        op_text(p[0].0) + tree_text(p[0].1) + operands_text(p.drop_first())
    }
}

proof fn lemma_operands_text_concat(p: Seq<(Op, SpecBexp)>, q: Seq<(Op, SpecBexp)>)
    ensures
        operands_text(p + q) == operands_text(p) + operands_text(q),
    decreases p.len(),
{
    if p.len() == 0 {
        assert(p + q =~= q);
        assert(operands_text(p) + operands_text(q) =~= operands_text(q));
    } else {
        lemma_operands_text_concat(p.drop_first(), q);
        assert((p + q).drop_first() =~= p.drop_first() + q);
        assert((p + q)[0] == p[0]);
        assert(operands_text(p + q) =~= operands_text(p) + operands_text(q));
    }
}

/// The text of a tree is its first operand followed by the rest.
proof fn lemma_tree_text_operands(b: SpecBexp)
    ensures
        tree_text(b) == tree_text(first_operand(b)) + operands_text(later_operands(b)),
    decreases b,
{
    match b {
        SpecBexp::Binary(l, op, r) => {
            lemma_tree_text_operands(*l);
            lemma_tree_text_operands(*r);
            let one = seq![(op, first_operand(*r))];
            lemma_operands_text_concat(later_operands(*l), one);
            lemma_operands_text_concat(later_operands(*l) + one, later_operands(*r));
            assert(one.drop_first() =~= Seq::<(Op, SpecBexp)>::empty());
            assert(operands_text(one.drop_first()) == Seq::<char>::empty());
            assert(one[0] == (op, first_operand(*r)));
            assert(operands_text(one) =~= op_text(op) + tree_text(first_operand(*r)));
            assert(tree_text(b) =~= tree_text(first_operand(b)) + operands_text(later_operands(b)));
        },
        _ => {
            assert(tree_text(b) =~= tree_text(b) + Seq::<char>::empty());
        },
    }
}

proof fn lemma_good_operand_higher(a: SpecBexp, h: nat, h2: nat)
    requires
        good_operand(a, h),
        h <= h2,
    ensures
        good_operand(a, h2),
{
    if !(a is Var) && !(a is Sym) {
        let x = choose|x: SpecExp|
            is_plain(x) && height(x) < h && a == SpecBexp::Parens(Box::new(#[trigger] printed_tree(x)));
        assert(is_plain(x) && height(x) < h2 && a == SpecBexp::Parens(Box::new(printed_tree(x))));
    }
}

/// The tree of a side of an operator, parenthesized or not, keeps what the
/// tree of the side itself has.
proof fn lemma_side(x: SpecExp, parent: Op, side: Side, h: nat)
    requires
        is_plain(x),
        height(x) < h,
        proper(printed_tree(x)),
        good_operand(first_operand(printed_tree(x)), height(x)),
        good_operands(later_operands(printed_tree(x)), height(x)),
    ensures
        proper(parenthesized(x, parent, side)),
        good_operand(first_operand(parenthesized(x, parent, side)), h),
        good_operands(later_operands(parenthesized(x, parent, side)), h),
        parenthesized(x, parent, side) == printed_tree(x) || parenthesized(x, parent, side)
            == SpecBexp::Parens(Box::new(printed_tree(x))),
{
    let b = printed_tree(x);
    let pb = parenthesized(x, parent, side);
    if pb == b {
        lemma_good_operand_higher(first_operand(b), height(x), h);
        let p = later_operands(b);
        assert forall|k: int| 0 <= k < p.len() implies is_plain_op((#[trigger] p[k]).0) && good_operand(p[k].1, h) by {
            lemma_good_operand_higher(p[k].1, height(x), h);
        }
    } else {
        assert(pb == SpecBexp::Parens(Box::new(b)));
        assert(good_operand(pb, h));
        assert(later_operands(pb) =~= Seq::<(Op, SpecBexp)>::empty());
    }
}

/// The printed tree of a plain expression is proper, and it is written with
/// the operators and operands of plain expressions.
proof fn lemma_printed_plain(e: SpecExp)
    requires
        is_plain(e),
    ensures
        proper(printed_tree(e)),
        good_operand(first_operand(printed_tree(e)), height(e)),
        good_operands(later_operands(printed_tree(e)), height(e)),
        exp_of_bexp(printed_tree(e)) == e,
    decreases e,
{
    match e {
        SpecExp::Cons(l, r) => lemma_printed_binary(e, *l, Op::Comma, *r),
        SpecExp::Fun(l, r) => lemma_printed_binary(e, *l, Op::Arrow, *r),
        SpecExp::App(l, r) => lemma_printed_binary(e, *l, Op::Empty, *r),
        _ => {
            assert(later_operands(printed_tree(e)) =~= Seq::<(Op, SpecBexp)>::empty());
        },
    }
}

proof fn lemma_printed_binary(e: SpecExp, l: SpecExp, op: Op, r: SpecExp)
    requires
        is_plain(e),
        e == SpecExp::Cons(Box::new(l), Box::new(r)) && op == Op::Comma
            || e == SpecExp::Fun(Box::new(l), Box::new(r)) && op == Op::Arrow
            || e == SpecExp::App(Box::new(l), Box::new(r)) && op == Op::Empty,
    ensures
        proper(printed_tree(e)),
        good_operand(first_operand(printed_tree(e)), height(e)),
        good_operands(later_operands(printed_tree(e)), height(e)),
        exp_of_bexp(printed_tree(e)) == e,
    decreases e, 0int,
{
    assert(is_plain(l) && is_plain(r));
    assert(height(l) < height(e) && height(r) < height(e));
    lemma_printed_plain(l);
    lemma_printed_plain(r);
    let h = height(e);
    let pl = parenthesized(l, op, Side::Left);
    let pr = parenthesized(r, op, Side::Right);
    lemma_side(l, op, Side::Left, h);
    lemma_side(r, op, Side::Right, h);
    let b = SpecBexp::Binary(Box::new(pl), op, Box::new(pr));
    assert(printed_tree(e) == b);
    assert(exp_of_bexp(pl) == l);
    assert(exp_of_bexp(pr) == r);
    match pl {
        SpecBexp::Binary(_, lop, _) => {
            assert(pl == printed_tree(l));
            assert(!needs_parens(lop, op, Side::Left));
            assert(!binds_over(op, lop));
        },
        _ => {},
    }
    match pr {
        SpecBexp::Binary(_, rop, _) => {
            assert(pr == printed_tree(r));
            assert(!needs_parens(rop, op, Side::Right));
            assert(binds_over(rop, op));
        },
        _ => {},
    }
    let p = later_operands(b);
    let one = seq![(op, first_operand(pr))];
    assert(p == later_operands(pl) + one + later_operands(pr));
    assert forall|k: int| 0 <= k < p.len() implies is_plain_op((#[trigger] p[k]).0) && good_operand(p[k].1, h) by {
        let n = later_operands(pl).len();
        if k < n {
            assert(p[k] == later_operands(pl)[k]);
        } else if k == n {
            assert(p[k] == (op, first_operand(pr)));
        } else {
            assert(p[k] == later_operands(pr)[k - n - 1]);
        }
    }
}


proof fn lemma_split(s: Seq<char>, i: int, a: Seq<char>, b: Seq<char>)
    requires
        0 <= i,
        i + a.len() + b.len() <= s.len(),
        s.subrange(i, i + a.len() + b.len()) == a + b,
    ensures
        s.subrange(i, i + a.len()) == a,
        s.subrange(i + a.len(), i + a.len() + b.len()) == b,
{
    assert forall|k: int| 0 <= k < a.len() implies s.subrange(i, i + a.len())[k] == a[k] by {
        assert(s.subrange(i, i + a.len() + b.len())[k] == (a + b)[k]);
    }
    assert forall|k: int| 0 <= k < b.len() implies s.subrange(i + a.len(), i + a.len() + b.len())[k] == b[k] by {
        assert(s.subrange(i, i + a.len() + b.len())[a.len() + k] == (a + b)[a.len() + k]);
        assert(s.subrange(i, i + a.len() + b.len())[a.len() + k] == s[i + a.len() + k]);
        assert(s.subrange(i + a.len(), i + a.len() + b.len())[k] == s[i + a.len() + k]);
        assert((a + b)[a.len() + k] == b[k]);
    }
    assert(s.subrange(i, i + a.len()) =~= a);
    assert(s.subrange(i + a.len(), i + a.len() + b.len()) =~= b);
}

proof fn lemma_ident_run(s: Seq<char>, a: int, b: int)
    requires
        0 <= a <= b <= s.len(),
        forall|k: int| a <= k < b ==> is_ident_char(#[trigger] s[k]),
        b == s.len() || !is_ident_char(s[b]),
    ensures
        ident_end(s, a) == b,
    decreases b - a,
{
    if a < b {
        lemma_ident_run(s, a + 1, b);
    }
}

/// At the end of the text or before `)`, no operator and operand follow.
proof fn lemma_tail_end(s: Seq<char>, m: int)
    requires
        0 <= m <= s.len(),
        m == s.len() || s[m] == ')',
    ensures
        tail_at(s, m) == (Seq::<(Op, SpecBexp)>::empty(), m),
        junk_end(s, m) == m,
{
    assert(junk_end(s, m) == m);
    assert(op_at(s, m) == (Op::Empty, m));
    assert(ident_end(s, m) == m);
    assert(atom_at(s, m) is None);
}

/// A character an operand starts with.
pub open spec fn starts_operand(c: char) -> bool {
    is_ident_char(c) || c == ':' || c == '('
}

proof fn lemma_operand_start(a: SpecBexp, h: nat)
    requires
        good_operand(a, h),
    ensures
        tree_text(a).len() >= 1,
        starts_operand(tree_text(a)[0]),
{
    reveal_strlit(":");
    reveal_strlit("(");
    if a is Var {
        assert(tree_text(a) == a->Var_0);
    } else if a is Sym {
        assert(tree_text(a) == ":"@ + a->Sym_0);
    } else {
        let x = choose|x: SpecExp|
            is_plain(x) && height(x) < h && a == SpecBexp::Parens(Box::new(#[trigger] printed_tree(x)));
        assert(tree_text(a) == "("@ + tree_text(printed_tree(x)) + ")"@);
    }
}

/// At the start of an operand there are no blanks.
proof fn lemma_no_junk(s: Seq<char>, i: int)
    requires
        0 <= i < s.len(),
        starts_operand(s[i]) || s[i] == ',',
    ensures
        junk_end(s, i) == i,
{
}

/// An operand is read where its text stands.
proof fn lemma_parse_operand(a: SpecBexp, h: nat, s: Seq<char>, i: int)
    requires
        good_operand(a, h),
        0 <= i,
        i + tree_text(a).len() <= s.len(),
        s.subrange(i, i + tree_text(a).len()) == tree_text(a),
        i + tree_text(a).len() == s.len() || !is_ident_char(s[i + tree_text(a).len()]),
    ensures
        atom_at(s, i) == Some((a, i + tree_text(a).len())),
    decreases h, 0int, 0int,
{
    reveal_strlit(":");
    reveal_strlit("(");
    reveal_strlit(")");
    let t = tree_text(a);
    let end = i + t.len();
    lemma_operand_start(a, h);
    assert(s[i] == s.subrange(i, end)[0]);
    if a is Var {
        let v = a->Var_0;
        assert(t == v);
        assert forall|k: int| i <= k < end implies is_ident_char(#[trigger] s[k]) by {
            assert(s[k] == s.subrange(i, end)[k - i]);
        }
        lemma_ident_run(s, i, end);
        assert(s.subrange(i, end) == v);
    } else if a is Sym {
        let x = a->Sym_0;
        assert(t == ":"@ + x);
        assert forall|k: int| i + 1 <= k < end implies is_ident_char(#[trigger] s[k]) by {
            assert(s[k] == s.subrange(i, end)[k - i]);
            assert((":"@ + x)[k - i] == x[k - i - 1]);
        }
        lemma_ident_run(s, i + 1, end);
        lemma_split(s, i, ":"@, x);
    } else {
        let x = choose|x: SpecExp|
            is_plain(x) && height(x) < h && a == SpecBexp::Parens(Box::new(#[trigger] printed_tree(x)));
        let tx = tree_text(printed_tree(x));
        assert(t == "("@ + tx + ")"@);
        lemma_split(s, i, "("@ + tx, ")"@);
        lemma_split(s, i, "("@, tx);
        assert(s[end - 1] == s.subrange(end - 1, end)[0]);
        lemma_parse_printed(x, s, i + 1);
    }
}

/// The operators and operands after a first operand are read where their
/// text stands, up to the end of the text or a `)`.
proof fn lemma_parse_operands(p: Seq<(Op, SpecBexp)>, h: nat, s: Seq<char>, k: int)
    requires
        good_operands(p, h),
        0 <= k,
        k + operands_text(p).len() <= s.len(),
        s.subrange(k, k + operands_text(p).len()) == operands_text(p),
        k + operands_text(p).len() == s.len() || s[k + operands_text(p).len()] == ')',
    ensures
        tail_at(s, k) == (p, k + operands_text(p).len()),
    decreases h, 0int, p.len() + 1,
{
    reveal_strlit(", ");
    reveal_strlit(" -> ");
    reveal_strlit(" ");
    if p.len() == 0 {
        assert(p =~= Seq::<(Op, SpecBexp)>::empty());
        lemma_tail_end(s, k);
    } else {
        let op = p[0].0;
        let a = p[0].1;
        let q = p.drop_first();
        let ot = op_text(op);
        let ta = tree_text(a);
        let tq = operands_text(q);
        let end = k + ot.len() + ta.len() + tq.len();
        assert(good_operands(q, h)) by {
            assert forall|j: int| 0 <= j < q.len() implies is_plain_op((#[trigger] q[j]).0) && good_operand(q[j].1, h) by {
                assert(q[j] == p[j + 1]);
            }
        }
        assert(operands_text(p) == ot + ta + tq);
        assert(ot + ta + tq =~= ot + (ta + tq));
        lemma_split(s, k, ot, ta + tq);
        lemma_split(s, k + ot.len(), ta, tq);
        lemma_operand_start(a, h);
        let j3 = k + ot.len();
        assert(s[j3] == s.subrange(j3, j3 + ta.len())[0]);
        lemma_no_junk(s, j3);
        if op == Op::Comma {
            assert(s[k] == s.subrange(k, j3)[0]);
            assert(s[k + 1] == s.subrange(k, j3)[1]);
            lemma_no_junk(s, k);
            assert(op_at(s, k) == (Op::Comma, k + 1));
            assert(junk_end(s, k + 1) == j3);
        } else if op == Op::Arrow {
            assert(s[k] == s.subrange(k, j3)[0]);
            assert(s[k + 1] == s.subrange(k, j3)[1]);
            assert(s[k + 2] == s.subrange(k, j3)[2]);
            assert(s[k + 3] == s.subrange(k, j3)[3]);
            assert(junk_end(s, k + 1) == k + 1);
            assert(junk_end(s, k) == k + 1);
            assert(op_at(s, k + 1) == (Op::Arrow, k + 3));
            assert(junk_end(s, k + 3) == j3);
        } else {
            assert(op == Op::Empty);
            assert(s[k] == s.subrange(k, j3)[0]);
            assert(junk_end(s, k) == j3);
            assert(op_at(s, j3) == (Op::Empty, j3));
        }
        if tq.len() > 0 {
            lemma_operands_start(q, h);
            assert(s[j3 + ta.len()] == s.subrange(j3 + ta.len(), end)[0]);
        }
        lemma_parse_operand(a, h, s, j3);
        lemma_parse_operands(q, h, s, j3 + ta.len());
        assert(seq![(op, a)] + q =~= p);
    }
}

proof fn lemma_operands_start(p: Seq<(Op, SpecBexp)>, h: nat)
    requires
        good_operands(p, h),
        p.len() > 0,
    ensures
        operands_text(p).len() > 0,
        operands_text(p)[0] == ',' || operands_text(p)[0] == ' ',
{
    reveal_strlit(", ");
    reveal_strlit(" -> ");
    reveal_strlit(" ");
    assert(is_plain_op(p[0].0));
    let ot = op_text(p[0].0);
    assert(operands_text(p) == ot + tree_text(p[0].1) + operands_text(p.drop_first()));
    assert(operands_text(p)[0] == ot[0]);
}

/// The printed text of a plain expression is read as its printed tree,
/// where it stands before the end of the text or before `)`.
proof fn lemma_parse_printed(e: SpecExp, s: Seq<char>, i: int)
    requires
        is_plain(e),
        0 <= i,
        i + printed(e).len() <= s.len(),
        s.subrange(i, i + printed(e).len()) == printed(e),
        i + printed(e).len() == s.len() || s[i + printed(e).len()] == ')',
    ensures
        group_at(s, i) == Some((printed_tree(e), i + printed(e).len())),
    decreases height(e), 1int, 0int,
{
    let b = printed_tree(e);
    let f = first_operand(b);
    let p = later_operands(b);
    let tf = tree_text(f);
    let tp = operands_text(p);
    let end = i + printed(e).len();
    lemma_printed_plain(e);
    lemma_tree_text_operands(b);
    lemma_operands_atomic(b);
    lemma_split(s, i, tf, tp);
    lemma_operand_start(f, height(e));
    assert(s[i] == s.subrange(i, i + tf.len())[0]);
    lemma_no_junk(s, i);
    if tp.len() > 0 {
        assert(p.len() > 0);
        lemma_operands_start(p, height(e));
        assert(s[i + tf.len()] == s.subrange(i + tf.len(), end)[0]);
    } else {
        assert(end == i + tf.len());
    }
    lemma_parse_operand(f, height(e), s, i);
    lemma_parse_operands(p, height(e), s, i + tf.len());
    lemma_reassociated_left_chain(f, p);
    lemma_insert_all_operands(b);
    lemma_tail_end(s, end);
}

/// What the printer writes of a plain expression, the parser reads back as
/// that expression.
pub proof fn lemma_parse_printed_plain(e: SpecExp)
    requires
        is_plain(e),
    ensures
        parse_tree(printed(e)) == Ok::<SpecBexp, (int, bool)>(printed_tree(e)),
        parse_spec(printed(e)) == e,
{
    let s = printed(e);
    assert(s.subrange(0, s.len() as int) =~= s);
    lemma_parse_printed(e, s, 0);
    lemma_printed_plain(e);
}

} // verus!
