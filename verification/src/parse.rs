use vstd::prelude::*;

use crate::exp::{Bexp, Error, Exp, Op, Side};
use crate::grammar::{
    atom_at, binds_over, comment_close, exp_of_bexp, group_at, ident_end, insert_op,
    is_ident_char, is_space, junk_end, left_associated, left_size, lemma_comment_close,
    lemma_ident_end, lemma_junk_end, lemma_line_end, lemma_reassociated,
    lemma_reassociated_fixed, lemma_tail_at, line_end, op_at, parse_tree, reassociated, size,
    tail_at,
};
use crate::model::{bexp_view, error_view, exp_view, SpecBexp, SpecError, SpecExp};
use crate::text::{chars_of, nom_error_message, nom_error_text, string_of};

verus! {

/// The expression that a text denotes, or the parse error that `nom`
/// reports for it.
pub open spec fn parse_spec(s: Seq<char>) -> SpecExp {
    match parse_tree(s) {
        Ok(b) => exp_of_bexp(b),
        Err((pos, trailing)) => SpecExp::Error(
            SpecError::ParseError(nom_error_text(s.subrange(pos, s.len() as int), trailing)),
        ),
    }
}

/// The value of a parsed tree and the position after it.
pub open spec fn opt_parsed(r: Option<(Bexp, usize)>) -> Option<(SpecBexp, int)> {
    match r {
        Some((b, j)) => Some((b@, j as int)),
        None => None,
    }
}

/// The values of operators and their right operands.
pub open spec fn pairs_view(v: Seq<(Op, Bexp)>) -> Seq<(Op, SpecBexp)> {
    v.map_values(|p: (Op, Bexp)| (p.0, p.1@))
}

/// Parses a whole text into an expression. A text that is no expression
/// gives an error expression with the message of `nom`.
pub fn parse(input: &str) -> (exp: Exp)
    ensures
        exp@ == parse_spec(input@),
{
    let s = chars_of(input);
    let len = s.len();
    proof {
        reveal_with_fuel(exp_view, 2);
        reveal_with_fuel(error_view, 2);
    }
    match parse_group(&s, 0) {
        Some((bexp, end)) => {
            if end == len {
                parse_exp(bexp)
            } else {
                let rest = string_of(&s, end, len);
                Exp::Error(Error::ParseError(nom_error_message(rest.as_str(), true)))
            }
        },
        None => {
            let start = junk_end_at(&s, 0);
            let rest = string_of(&s, start, len);
            Exp::Error(Error::ParseError(nom_error_message(rest.as_str(), false)))
        },
    }
}

/// Turns a tree of operators into the expression it denotes.
pub fn parse_exp(bexp: Bexp) -> (exp: Exp)
    ensures
        exp@ == exp_of_bexp(bexp@),
    decreases bexp,
{
    let ghost b0 = bexp@;
    proof {
        reveal_with_fuel(bexp_view, 3);
        reveal_with_fuel(exp_view, 2);
        reveal_with_fuel(error_view, 2);
    }
    match bexp {
        Bexp::Binary(l, op, r) => match op {
            Op::Semicolon => match *l {
                Bexp::Binary(var, Op::Equals, exp) => match *var {
                    Bexp::Var(var) => {
                        assert(b0 matches SpecBexp::Binary(bl, _, _) && *bl == SpecBexp::Binary(
                            Box::new(SpecBexp::Var(var@)),
                            Op::Equals,
                            Box::new(exp@),
                        ));
                        Exp::Let(var, Box::new(parse_exp(*exp)), Box::new(parse_exp(*r)))
                    },
                    other => {
                        assert(b0 matches SpecBexp::Binary(bl, _, _) && *bl == SpecBexp::Binary(
                            Box::new(other@),
                            Op::Equals,
                            Box::new(exp@),
                        ));
                        assert(exp_of_bexp(b0) == SpecExp::Error(SpecError::ExpectedVar(Box::new(other@))));
                        Exp::Error(Error::ExpectedVar(Box::new(other)))
                    },
                },
                other => {
                    assert(b0 matches SpecBexp::Binary(bl, _, _) && *bl == other@);
                    assert(exp_of_bexp(b0) == SpecExp::Error(SpecError::ExpectedEquals(Box::new(other@))));
                    Exp::Error(Error::ExpectedEquals(Box::new(other)))
                },
            },
            Op::Equals => {
                let b = Bexp::Binary(l, op, r);
                assert(b@ == b0);
                Exp::Error(Error::UnexpectedEquals(Box::new(b)))
            },
            Op::Comma => Exp::Cons(Box::new(parse_exp(*l)), Box::new(parse_exp(*r))),
            Op::Arrow => Exp::Fun(Box::new(parse_exp(*l)), Box::new(parse_exp(*r))),
            Op::Empty => Exp::App(Box::new(parse_exp(*l)), Box::new(parse_exp(*r))),
        },
        Bexp::Parens(bexp) => parse_exp(*bexp),
        Bexp::Var(var) => Exp::Var(var),
        Bexp::Sym(var) => Exp::Sym(var),
        Bexp::Error(e) => Exp::Error(e),
    }
}

fn is_ident(c: char) -> (b: bool)
    ensures
        b == is_ident_char(c),
{
    ('a' <= c && c <= 'z') || ('A' <= c && c <= 'Z') || ('0' <= c && c <= '9') || c == '_'
}

fn is_blank(c: char) -> (b: bool)
    ensures
        b == is_space(c),
{
    c == ' ' || c == '\t' || c == '\r' || c == '\n'
}

fn ident_end_at(s: &Vec<char>, i: usize) -> (e: usize)
    requires
        i <= s.len(),
    ensures
        e == ident_end(s@, i as int),
{
    let mut j = i;
    while j < s.len() && is_ident(s[j])
        invariant
            i <= j <= s.len(),
            ident_end(s@, i as int) == ident_end(s@, j as int),
        decreases s.len() - j,
    {
        j += 1;
    }
    j
}

fn line_end_at(s: &Vec<char>, i: usize) -> (e: usize)
    requires
        i <= s.len(),
    ensures
        e == line_end(s@, i as int),
{
    let mut j = i;
    while j < s.len() && s[j] != '\n'
        invariant
            i <= j <= s.len(),
            line_end(s@, i as int) == line_end(s@, j as int),
        decreases s.len() - j,
    {
        j += 1;
    }
    j
}

fn comment_close_at(s: &Vec<char>, i: usize) -> (e: Option<usize>)
    requires
        i <= s.len(),
    ensures
        e matches Some(j) ==> comment_close(s@, i as int) == Some(j as int),
        e is None ==> comment_close(s@, i as int) is None,
{
    let mut j = i;
    while s.len() - j > 1
        invariant
            i <= j <= s.len(),
            comment_close(s@, i as int) == comment_close(s@, j as int),
        decreases s.len() - j,
    {
        if s[j] == '*' && s[j + 1] == '/' {
            return Some(j);
        }
        j += 1;
    }
    None
}

fn junk_end_at(s: &Vec<char>, i: usize) -> (e: usize)
    requires
        i <= s.len(),
    ensures
        e == junk_end(s@, i as int),
        i <= e <= s.len(),
{
    let len = s.len();
    let mut j = i;
    loop
        invariant
            i <= j <= len,
            len == s.len(),
            junk_end(s@, i as int) == junk_end(s@, j as int),
        decreases len - j,
    {
        if j < len && is_blank(s[j]) {
            j += 1;
        } else if len - j > 1 && s[j] == '-' && s[j + 1] == '-' {
            proof {
                lemma_line_end(s@, j + 2);
            }
            j = line_end_at(s, j + 2);
        } else if len - j > 1 && s[j] == '/' && s[j + 1] == '*' {
            proof {
                lemma_comment_close(s@, j + 2);
            }
            match comment_close_at(s, j + 2) {
                Some(k) => {
                    j = k + 2;
                },
                None => {
                    return j;
                },
            }
        } else {
            return j;
        }
    }
}

fn op_at_pos(s: &Vec<char>, i: usize) -> (res: (Op, usize))
    requires
        i <= s.len(),
    ensures
        op_at(s@, i as int) == (res.0, res.1 as int),
{
    if i < s.len() && s[i] == ';' {
        (Op::Semicolon, i + 1)
    } else if i < s.len() && s[i] == '=' {
        (Op::Equals, i + 1)
    } else if i < s.len() && s[i] == ',' {
        (Op::Comma, i + 1)
    } else if s.len() - i > 1 && s[i] == '-' && s[i + 1] == '>' {
        (Op::Arrow, i + 2)
    } else {
        (Op::Empty, i)
    }
}

fn parse_atom(s: &Vec<char>, i: usize) -> (res: Option<(Bexp, usize)>)
    requires
        i <= s.len(),
    ensures
        opt_parsed(res) == atom_at(s@, i as int),
    decreases s@.len() - i, 0int,
{
    if i < s.len() && s[i] == '(' {
        match parse_group(s, i + 1) {
            Some((b, j)) => {
                if i < j && j < s.len() && s[j] == ')' {
                    Some((Bexp::Parens(Box::new(b)), j + 1))
                } else {
                    None
                }
            },
            None => None,
        }
    } else if i < s.len() && s[i] == ':' {
        let e = ident_end_at(s, i + 1);
        proof {
            lemma_ident_end(s@, i + 1);
        }
        if i + 1 < e {
            Some((Bexp::Sym(string_of(s, i + 1, e)), e))
        } else {
            None
        }
    } else {
        let e = ident_end_at(s, i);
        proof {
            lemma_ident_end(s@, i as int);
        }
        if i < e {
            Some((Bexp::Var(string_of(s, i, e)), e))
        } else {
            None
        }
    }
}

fn parse_tail(s: &Vec<char>, k: usize) -> (res: (Vec<(Op, Bexp)>, usize))
    requires
        k <= s.len(),
    ensures
        pairs_view(res.0@) == tail_at(s@, k as int).0,
        res.1 == tail_at(s@, k as int).1,
        k <= res.1 <= s.len(),
    decreases s@.len() - k, 1int,
{
    let mut acc: Vec<(Op, Bexp)> = Vec::new();
    let mut cur = k;
    proof {
        lemma_tail_at(s@, k as int);
    }
    loop
        invariant
            k <= cur <= s.len(),
            pairs_view(acc@) + tail_at(s@, cur as int).0 == tail_at(s@, k as int).0,
            tail_at(s@, cur as int).1 == tail_at(s@, k as int).1,
        ensures
            pairs_view(acc@) == tail_at(s@, k as int).0,
            cur == tail_at(s@, k as int).1,
        decreases s@.len() - cur,
    {
        let j1 = junk_end_at(s, cur);
        let (op, j2) = op_at_pos(s, j1);
        let j3 = junk_end_at(s, j2);
        match parse_atom(s, j3) {
            Some((b, j4)) => {
                let ghost before = acc@;
                acc.push((op, b));
                proof {
                    assert(pairs_view(acc@) =~= pairs_view(before) + seq![(op, b@)]);
                    let t = tail_at(s@, j4 as int);
                    assert(tail_at(s@, cur as int).0 == seq![(op, b@)] + t.0);
                    assert(pairs_view(acc@) + t.0 =~= pairs_view(before) + (seq![(op, b@)] + t.0));
                }
                cur = j4;
            },
            None => {
                proof {
                    assert(tail_at(s@, cur as int).0 =~= Seq::<(Op, SpecBexp)>::empty());
                    assert(pairs_view(acc@) + tail_at(s@, cur as int).0 =~= pairs_view(acc@));
                }
                return (acc, cur);
            },
        }
    }
}

fn parse_group(s: &Vec<char>, i: usize) -> (res: Option<(Bexp, usize)>)
    requires
        i <= s.len(),
    ensures
        opt_parsed(res) == group_at(s@, i as int),
        res matches Some((_, j)) ==> j <= s.len(),
    decreases s@.len() - i, 2int,
{
    let j0 = junk_end_at(s, i);
    match parse_atom(s, j0) {
        Some((first, k)) => {
            let (rest, m) = parse_tail(s, k);
            let tree = re_associate(left_associate(first, rest));
            let end = junk_end_at(s, m);
            Some((tree, end))
        },
        None => None,
    }
}

/// Chains the operators and operands to the left, as they come.
fn left_associate(first: Bexp, rest: Vec<(Op, Bexp)>) -> (b: Bexp)
    ensures
        b@ == left_associated(first@, pairs_view(rest@)),
{
    let ghost all = pairs_view(rest@);
    let mut rest = rest;
    let mut acc = first;
    let ghost mut done: int = 0;
    while rest.len() > 0
        invariant
            0 <= done <= all.len(),
            pairs_view(rest@) == all.skip(done),
            acc@ == left_associated(first@, all.take(done)),
        decreases rest.len(),
    {
        let ghost before = rest@;
        let (op, exp) = rest.remove(0);
        proof {
            assert(pairs_view(before) == all.skip(done));
            assert(pairs_view(before)[0] == (before[0].0, before[0].1@));
            assert(all.skip(done)[0] == all[done]);
            assert(all[done] == (op, exp@));
            assert forall|k: int| 0 <= k < rest@.len() implies #[trigger] pairs_view(rest@)[k] == all.skip(done + 1)[k] by {
                assert(rest@[k] == before[k + 1]);
                assert(pairs_view(before)[k + 1] == (before[k + 1].0, before[k + 1].1@));
                assert(pairs_view(rest@)[k] == (rest@[k].0, rest@[k].1@));
                assert(pairs_view(before)[k + 1] == all.skip(done)[k + 1]);
                assert(all.skip(done)[k + 1] == all.skip(done + 1)[k]);
            }
            assert(pairs_view(rest@) =~= all.skip(done + 1));
            assert(all.take(done + 1).drop_last() =~= all.take(done));
        }
        acc = Bexp::Binary(Box::new(acc), op, Box::new(exp));
        proof {
            done = done + 1;
        }
    }
    proof {
        assert(all.take(done) =~= all);
    }
    acc
}

/// Rebuilds a tree by the precedence and associativity of its operators.
fn re_associate(exp: Bexp) -> (b: Bexp)
    ensures
        b@ == reassociated(exp@),
    decreases size(exp@), left_size(exp@),
{
    match exp {
        Bexp::Binary(left, r, c) => {
            let ghost e0 = Bexp::Binary(left, r, c)@;
            let ghost l0 = left@;
            let ghost c0 = c@;
            let c = re_associate(*c);
            let left = re_associate(*left);
            proof {
                lemma_reassociated(l0);
                lemma_reassociated(c0);
                assert(e0 == SpecBexp::Binary(Box::new(l0), r, Box::new(c0)));
                assert(reassociated(e0) == insert_op(left@, r, c@));
            }
            match left {
                Bexp::Binary(a, l, b) => {
                    if r.precedence() > l.precedence() || (r == l && r.assoc() == Side::Right) {
                        proof {
                            lemma_reassociated_fixed(a@);
                            lemma_reassociated_fixed(b@);
                            lemma_reassociated_fixed(c@);
                            assert(binds_over(r, l));
                            let y = insert_op(b@, r, c@);
                            assert(left@ == SpecBexp::Binary(Box::new(a@), l, Box::new(b@)));
                            assert(reassociated(SpecBexp::Binary(Box::new(b@), r, Box::new(c@))) == y);
                            assert(insert_op(a@, l, y) == SpecBexp::Binary(Box::new(a@), l, Box::new(y)));
                        }
                        let ghost av = a@;
                        let ghost bv = b@;
                        let ghost cv = c@;
                        let bc = Bexp::Binary(b, r, Box::new(c));
                        assert(bc@ == SpecBexp::Binary(Box::new(bv), r, Box::new(cv)));
                        assert(reassociated(bc@) == insert_op(bv, r, cv));
                        let x = Bexp::Binary(a, l, Box::new(bc));
                        proof {
                            assert(x@ == SpecBexp::Binary(Box::new(av), l, Box::new(bc@)));
                            assert(reassociated(x@) == insert_op(av, l, insert_op(bv, r, cv)));
                            assert(size(bc@) == size(bv) + size(cv) + 1);
                            assert(size(x@) == size(av) + size(bc@) + 1);
                            assert(size(left@) == size(av) + size(bv) + 1);
                            assert(size(e0) == size(l0) + size(c0) + 1);
                            assert(size(x@) == size(e0));
                            assert(left_size(x@) < left_size(e0));
                        }
                        re_associate(x)
                    } else {
                        proof {
                            assert(!binds_over(r, l));
                        }
                        Bexp::Binary(Box::new(Bexp::Binary(a, l, b)), r, Box::new(c))
                    }
                },
                left => Bexp::Binary(Box::new(left), r, Box::new(c)),
            }
        },
        exp => exp,
    }
}

} // verus!
