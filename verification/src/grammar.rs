use vstd::prelude::*;

use crate::exp::{Op, Side};
use crate::model::{SpecBexp, SpecError, SpecExp};

verus! {

// The concrete syntax, as a function from the characters of a text to the
// tree of operators it denotes. Names are runs of ASCII letters, digits and
// underscores; a symbol is a name after `:`; blanks are spaces, tabs,
// carriage returns, line feeds, `--` comments to the end of the line and
// `/* */` comments. Operators, from the loosest to the tightest: `;`, `=`,
// `,`, `->` and juxtaposition; juxtaposition associates to the left, the
// others to the right.

pub open spec fn is_ident_char(c: char) -> bool {
    ('a' <= c && c <= 'z') || ('A' <= c && c <= 'Z') || ('0' <= c && c <= '9') || c == '_'
}

pub open spec fn is_space(c: char) -> bool {
    c == ' ' || c == '\t' || c == '\r' || c == '\n'
}

/// The end of the run of name characters that starts at `i`.
pub open spec fn ident_end(s: Seq<char>, i: int) -> int
    decreases s.len() - i,
{
    if 0 <= i < s.len() && is_ident_char(s[i]) {
        ident_end(s, i + 1)
    } else {
        i
    }
}

/// The position of the first line feed at or after `i`, or the end.
pub open spec fn line_end(s: Seq<char>, i: int) -> int
    decreases s.len() - i,
{
    if 0 <= i < s.len() && s[i] != '\n' {
        line_end(s, i + 1)
    } else {
        i
    }
}

/// The position of the first `*/` at or after `i`, if any.
pub open spec fn comment_close(s: Seq<char>, i: int) -> Option<int>
    decreases s.len() - i,
{
    if 0 <= i && i + 1 < s.len() {
        if s[i] == '*' && s[i + 1] == '/' {
            Some(i)
        } else {
            comment_close(s, i + 1)
        }
    } else {
        None
    }
}

/// The end of the blanks and comments that start at `i`.
pub open spec fn junk_end(s: Seq<char>, i: int) -> int
    decreases s.len() - i,
{
    if 0 <= i < s.len() && is_space(s[i]) {
        junk_end(s, i + 1)
    } else if 0 <= i && i + 1 < s.len() && s[i] == '-' && s[i + 1] == '-' {
        let j = line_end(s, i + 2);
        if i < j <= s.len() {
            junk_end(s, j)
        } else {
            i
        }
    } else if 0 <= i && i + 1 < s.len() && s[i] == '/' && s[i + 1] == '*' {
        match comment_close(s, i + 2) {
            Some(j) => if i < j + 2 <= s.len() {
                junk_end(s, j + 2)
            } else {
                i
            },
            None => i,
        }
    } else {
        i
    }
}

/// The operator at `i` and the position after it; juxtaposition where no
/// operator character stands there.
pub open spec fn op_at(s: Seq<char>, i: int) -> (Op, int) {
    if 0 <= i < s.len() && s[i] == ';' {
        (Op::Semicolon, i + 1)
    } else if 0 <= i < s.len() && s[i] == '=' {
        (Op::Equals, i + 1)
    } else if 0 <= i < s.len() && s[i] == ',' {
        (Op::Comma, i + 1)
    } else if 0 <= i && i + 1 < s.len() && s[i] == '-' && s[i + 1] == '>' {
        (Op::Arrow, i + 2)
    } else {
        (Op::Empty, i)
    }
}

/// An atom at `i`: a group in parentheses, a symbol or a variable, and the
/// position after it.
pub open spec fn atom_at(s: Seq<char>, i: int) -> Option<(SpecBexp, int)>
    decreases s.len() - i, 0int,
{
    if 0 <= i < s.len() && s[i] == '(' {
        match group_at(s, i + 1) {
            Some((b, j)) => if i < j < s.len() && s[j] == ')' {
                Some((SpecBexp::Parens(Box::new(b)), j + 1))
            } else {
                None
            },
            None => None,
        }
    } else if 0 <= i < s.len() && s[i] == ':' {
        let e = ident_end(s, i + 1);
        if i + 1 < e <= s.len() {
            Some((SpecBexp::Sym(s.subrange(i + 1, e)), e))
        } else {
            None
        }
    } else {
        let e = ident_end(s, i);
        if 0 <= i < e <= s.len() {
            Some((SpecBexp::Var(s.subrange(i, e)), e))
        } else {
            None
        }
    }
}

/// The operators and atoms that follow a first atom ending at `k`, as many
/// as there are, and the position after the last one.
pub open spec fn tail_at(s: Seq<char>, k: int) -> (Seq<(Op, SpecBexp)>, int)
    decreases s.len() - k, 1int,
{
    let j1 = junk_end(s, k);
    let (op, j2) = op_at(s, j1);
    let j3 = junk_end(s, j2);
    if k <= j3 <= s.len() {
        match atom_at(s, j3) {
            Some((b, j4)) => if j3 < j4 <= s.len() {
                let (more, m) = tail_at(s, j4);
                (seq![(op, b)] + more, m)
            } else {
                (seq![], k)
            },
            None => (seq![], k),
        }
    } else {
        (seq![], k)
    }
}

/// An operator expression starting at `i`, blanks around it included, and
/// the position after it.
pub open spec fn group_at(s: Seq<char>, i: int) -> Option<(SpecBexp, int)>
    decreases s.len() - i, 2int,
{
    let j0 = junk_end(s, i);
    if 0 <= i <= j0 <= s.len() {
        match atom_at(s, j0) {
            Some((first, k)) => if j0 < k <= s.len() {
                let (rest, m) = tail_at(s, k);
                Some((reassociated(left_associated(first, rest)), junk_end(s, m)))
            } else {
                None
            },
            None => None,
        }
    } else {
        None
    }
}

/// The tree of a whole text, or where and how the text fails to be one:
/// `(i, false)` where no atom starts at `i` (the first atom), `(i, true)`
/// where the text goes on at `i` after a complete expression.
pub open spec fn parse_tree(s: Seq<char>) -> Result<SpecBexp, (int, bool)> {
    match group_at(s, 0) {
        None => Err((junk_end(s, 0), false)),
        Some((b, j)) => if j == s.len() {
            Ok(b)
        } else {
            Err((j, true))
        },
    }
}

/// Operators and operands chained to the left, as they come.
pub open spec fn left_associated(first: SpecBexp, rest: Seq<(Op, SpecBexp)>) -> SpecBexp
    decreases rest.len(),
{
    if rest.len() == 0 {
        first
    } else {
        SpecBexp::Binary(
            Box::new(left_associated(first, rest.drop_last())),
            rest.last().0,
            Box::new(rest.last().1),
        )
    }
}

/// `outer` may not have, as its left operand, a tree whose operator is
/// `inner`: where `outer` binds tighter than `inner`, or equally and
/// associates to the right.
pub open spec fn binds_over(outer: Op, inner: Op) -> bool {
    outer.level() > inner.level() || (outer == inner && outer.associativity() == Side::Right)
}

/// `right` joined to `left` by `op`: `op` goes down the right spine of
/// `left` as far as it binds over the operators there.
pub open spec fn insert_op(left: SpecBexp, op: Op, right: SpecBexp) -> SpecBexp
    decreases left,
{
    match left {
        SpecBexp::Binary(a, l, b) => if binds_over(op, l) {
            SpecBexp::Binary(a, l, Box::new(insert_op(*b, op, right)))
        } else {
            SpecBexp::Binary(Box::new(left), op, Box::new(right))
        },
        _ => SpecBexp::Binary(Box::new(left), op, Box::new(right)),
    }
}

/// The tree rebuilt by precedence and associativity: each operator, from
/// the bottom left up, inserted into its rebuilt left operand.
pub open spec fn reassociated(b: SpecBexp) -> SpecBexp
    decreases b,
{
    match b {
        SpecBexp::Binary(l, op, r) => insert_op(reassociated(*l), op, reassociated(*r)),
        _ => b,
    }
}

/// No operator has as its left operand a tree whose operator it binds over:
/// the tree respects precedence and associativity.
pub open spec fn well_associated(b: SpecBexp) -> bool
    decreases b,
{
    match b {
        SpecBexp::Binary(l, op, r) => {
            &&& well_associated(*l)
            &&& well_associated(*r)
            &&& match *l {
                SpecBexp::Binary(_, lop, _) => !binds_over(op, lop),
                _ => true,
            }
        },
        _ => true,
    }
}

/// The number of nodes of a tree, parentheses not looked into.
pub open spec fn size(b: SpecBexp) -> nat
    decreases b,
{
    match b {
        SpecBexp::Binary(l, _, r) => size(*l) + size(*r) + 1,
        _ => 1,
    }
}

/// The size of the left operand of a tree, or 0.
pub open spec fn left_size(b: SpecBexp) -> nat {
    match b {
        SpecBexp::Binary(l, _, _) => size(*l),
        _ => 0,
    }
}

/// The expression a tree of operators denotes: `x = e; b` binds `x`, `,`
/// makes pairs, `->` functions and juxtaposition applications.
pub open spec fn exp_of_bexp(b: SpecBexp) -> SpecExp
    decreases b,
{
    match b {
        SpecBexp::Binary(l, op, r) => match op {
            Op::Semicolon => match *l {
                SpecBexp::Binary(var, Op::Equals, exp) => match *var {
                    SpecBexp::Var(v) => SpecExp::Let(v, Box::new(exp_of_bexp(*exp)), Box::new(exp_of_bexp(*r))),
                    other => SpecExp::Error(SpecError::ExpectedVar(Box::new(other))),
                },
                other => SpecExp::Error(SpecError::ExpectedEquals(Box::new(other))),
            },
            Op::Equals => SpecExp::Error(SpecError::UnexpectedEquals(Box::new(b))),
            Op::Comma => SpecExp::Cons(Box::new(exp_of_bexp(*l)), Box::new(exp_of_bexp(*r))),
            Op::Arrow => SpecExp::Fun(Box::new(exp_of_bexp(*l)), Box::new(exp_of_bexp(*r))),
            Op::Empty => SpecExp::App(Box::new(exp_of_bexp(*l)), Box::new(exp_of_bexp(*r))),
        },
        SpecBexp::Parens(x) => exp_of_bexp(*x),
        SpecBexp::Var(v) => SpecExp::Var(v),
        SpecBexp::Sym(v) => SpecExp::Sym(v),
        SpecBexp::Error(e) => SpecExp::Error(e),
    }
}

/// Inserting an operator keeps the size and, into well associated trees,
/// gives a well associated tree.
pub proof fn lemma_insert_op(left: SpecBexp, op: Op, right: SpecBexp)
    ensures
        size(insert_op(left, op, right)) == size(left) + size(right) + 1,
        well_associated(left) && well_associated(right) ==> well_associated(insert_op(left, op, right)),
    decreases left,
{
    match left {
        SpecBexp::Binary(a, l, b) => if binds_over(op, l) {
            lemma_insert_op(*b, op, right);
        },
        _ => {},
    }
}

/// Rebuilding keeps the size and gives a well associated tree.
pub proof fn lemma_reassociated(b: SpecBexp)
    ensures
        size(reassociated(b)) == size(b),
        well_associated(reassociated(b)),
    decreases b,
{
    match b {
        SpecBexp::Binary(l, op, r) => {
            lemma_reassociated(*l);
            lemma_reassociated(*r);
            lemma_insert_op(reassociated(*l), op, reassociated(*r));
        },
        _ => {},
    }
}

/// A well associated tree is left as it is by rebuilding.
pub proof fn lemma_reassociated_fixed(b: SpecBexp)
    requires
        well_associated(b),
    ensures
        reassociated(b) == b,
    decreases b,
{
    match b {
        SpecBexp::Binary(l, op, r) => {
            lemma_reassociated_fixed(*l);
            lemma_reassociated_fixed(*r);
        },
        _ => {},
    }
}


/// A run of name characters stays within the text.
pub proof fn lemma_ident_end(s: Seq<char>, i: int)
    requires
        0 <= i <= s.len(),
    ensures
        i <= ident_end(s, i) <= s.len(),
        forall|k: int| i <= k < ident_end(s, i) ==> is_ident_char(#[trigger] s[k]),
        ident_end(s, i) < s.len() ==> !is_ident_char(s[ident_end(s, i)]),
    decreases s.len() - i,
{
    if i < s.len() && is_ident_char(s[i]) {
        lemma_ident_end(s, i + 1);
    }
}

/// The end of a line stays within the text.
pub proof fn lemma_line_end(s: Seq<char>, i: int)
    requires
        0 <= i <= s.len(),
    ensures
        i <= line_end(s, i) <= s.len(),
    decreases s.len() - i,
{
    if i < s.len() && s[i] != '\n' {
        lemma_line_end(s, i + 1);
    }
}

/// The end of a comment lies after its start, within the text.
pub proof fn lemma_comment_close(s: Seq<char>, i: int)
    requires
        0 <= i,
    ensures
        comment_close(s, i) matches Some(j) ==> i <= j && j + 1 < s.len(),
    decreases s.len() - i,
{
    if i + 1 < s.len() && !(s[i] == '*' && s[i + 1] == '/') {
        lemma_comment_close(s, i + 1);
    }
}

/// Blanks stay within the text.
pub proof fn lemma_junk_end(s: Seq<char>, i: int)
    requires
        0 <= i <= s.len(),
    ensures
        i <= junk_end(s, i) <= s.len(),
    decreases s.len() - i,
{
    if 0 <= i < s.len() && is_space(s[i]) {
        lemma_junk_end(s, i + 1);
    } else if 0 <= i && i + 1 < s.len() && s[i] == '-' && s[i + 1] == '-' {
        lemma_line_end(s, i + 2);
        lemma_junk_end(s, line_end(s, i + 2));
    } else if 0 <= i && i + 1 < s.len() && s[i] == '/' && s[i + 1] == '*' {
        lemma_comment_close(s, i + 2);
        match comment_close(s, i + 2) {
            Some(j) => lemma_junk_end(s, j + 2),
            None => {},
        }
    }
}

/// The operators after a first atom stay within the text.
pub proof fn lemma_tail_at(s: Seq<char>, k: int)
    requires
        0 <= k <= s.len(),
    ensures
        k <= tail_at(s, k).1 <= s.len(),
    decreases s.len() - k,
{
    let j1 = junk_end(s, k);
    let (op, j2) = op_at(s, j1);
    let j3 = junk_end(s, j2);
    if k <= j3 <= s.len() {
        match atom_at(s, j3) {
            Some((b, j4)) => if j3 < j4 <= s.len() {
                lemma_tail_at(s, j4);
            },
            None => {},
        }
    }
}

} // verus!
