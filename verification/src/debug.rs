use vstd::prelude::*;

use crate::exp::{Bexp, Data, Env, Error, Exp, Op, Thunk};
use crate::model::{SpecBexp, SpecData, SpecEnv, SpecError, SpecExp, SpecThunk};
use crate::text::{debug_quoted, debug_str};

verus! {

// The text of error values, as `{:?}` writes them: a variant's name, then
// its fields in parentheses, separated by `, `; boxes are transparent and
// strings are quoted. Environments are written as maps are: `{}`, or
// `{"x": Thunk(..), "y": Thunk(..)}` with the bindings in order.

/// The debug text of an [`Exp`].
pub open spec fn debug_exp(x: SpecExp) -> Seq<char>
    decreases x,
{
    match x {
        SpecExp::Let(f0, f1, f2) => "Let("@ + debug_quoted(f0) + ", "@ + debug_exp(*f1) + ", "@ + debug_exp(*f2) + ")"@,
        SpecExp::Cons(f0, f1) => "Cons("@ + debug_exp(*f0) + ", "@ + debug_exp(*f1) + ")"@,
        SpecExp::Fun(f0, f1) => "Fun("@ + debug_exp(*f0) + ", "@ + debug_exp(*f1) + ")"@,
        SpecExp::App(f0, f1) => "App("@ + debug_exp(*f0) + ", "@ + debug_exp(*f1) + ")"@,
        SpecExp::Var(f0) => "Var("@ + debug_quoted(f0) + ")"@,
        SpecExp::Sym(f0) => "Sym("@ + debug_quoted(f0) + ")"@,
        SpecExp::Error(f0) => "Error("@ + debug_error(f0) + ")"@,
    }
}

/// The debug text of a [`Data`].
pub open spec fn debug_data(x: SpecData) -> Seq<char>
    decreases x,
{
    match x {
        SpecData::Cons(f0, f1, f2) => "Cons("@ + debug_env(f0) + ", "@ + debug_exp(*f1) + ", "@ + debug_exp(*f2) + ")"@,
        SpecData::Fun(f0, f1, f2) => "Fun("@ + debug_env(f0) + ", "@ + debug_exp(*f1) + ", "@ + debug_exp(*f2) + ")"@,
        SpecData::Sym(f0) => "Sym("@ + debug_quoted(f0) + ")"@,
        SpecData::Error(f0) => "Error("@ + debug_error(f0) + ")"@,
    }
}

/// The text of an environment in an error, written as a map is: its
/// bindings as `"name": thunk`, in order, separated by `, `, in braces.
pub open spec fn debug_env(x: SpecEnv) -> Seq<char>
    decreases x,
{
    match x {
        SpecEnv::Empty => "{}"@,
        SpecEnv::Bind(f0, f1, f2) => "{"@ + debug_quoted(f0) + ": "@ + debug_thunk(*f1) + debug_more_entries(*f2) + "}"@,
    }
}

/// The bindings of an environment after the first one, each after `, `.
pub open spec fn debug_more_entries(x: SpecEnv) -> Seq<char>
    decreases x,
{
    match x {
        SpecEnv::Empty => Seq::empty(),
        SpecEnv::Bind(f0, f1, f2) => ", "@ + debug_quoted(f0) + ": "@ + debug_thunk(*f1) + debug_more_entries(*f2),
    }
}

/// The debug text of a [`Bexp`].
pub open spec fn debug_bexp(x: SpecBexp) -> Seq<char>
    decreases x,
{
    match x {
        SpecBexp::Binary(f0, f1, f2) => "Binary("@ + debug_bexp(*f0) + ", "@ + debug_op(f1) + ", "@ + debug_bexp(*f2) + ")"@,
        SpecBexp::Parens(f0) => "Parens("@ + debug_bexp(*f0) + ")"@,
        SpecBexp::Var(f0) => "Var("@ + debug_quoted(f0) + ")"@,
        SpecBexp::Sym(f0) => "Sym("@ + debug_quoted(f0) + ")"@,
        SpecBexp::Error(f0) => "Error("@ + debug_error(f0) + ")"@,
    }
}

/// The debug text of an [`Error`].
pub open spec fn debug_error(x: SpecError) -> Seq<char>
    decreases x,
{
    match x {
        SpecError::ParseError(f0) => "ParseError("@ + debug_quoted(f0) + ")"@,
        SpecError::UnexpectedEquals(f0) => "UnexpectedEquals("@ + debug_bexp(*f0) + ")"@,
        SpecError::ExpectedVar(f0) => "ExpectedVar("@ + debug_bexp(*f0) + ")"@,
        SpecError::ExpectedEquals(f0) => "ExpectedEquals("@ + debug_bexp(*f0) + ")"@,
        SpecError::Undefined(f0) => "Undefined("@ + debug_quoted(f0) + ")"@,
        SpecError::ApplySym(f0) => "ApplySym("@ + debug_data(*f0) + ")"@,
        SpecError::PatternMatchExp(f0, f1) => "PatternMatchExp("@ + debug_exp(*f0) + ", "@ + debug_exp(*f1) + ")"@,
        SpecError::PatternMatchData(f0, f1) => "PatternMatchData("@ + debug_exp(*f0) + ", "@ + debug_data(*f1) + ")"@,
        SpecError::PatternMatchSym(f0, f1) => "PatternMatchSym("@ + debug_quoted(f0) + ", "@ + debug_quoted(f1) + ")"@,
    }
}

/// The debug text of a [`Thunk`].
pub open spec fn debug_thunk(x: SpecThunk) -> Seq<char>
    decreases x,
{
    "Thunk("@ + debug_env(x.0) + ", "@ + debug_exp(x.1) + ")"@
}

/// The debug text of an [`Op`].
pub open spec fn debug_op(op: Op) -> Seq<char> {
    match op {
        Op::Semicolon => "Semicolon"@,
        Op::Equals => "Equals"@,
        Op::Comma => "Comma"@,
        Op::Arrow => "Arrow"@,
        Op::Empty => "Empty"@,
    }
}

fn write_op(out: &mut String, op: Op)
    ensures
        final(out)@ == old(out)@ + debug_op(op),
{
    match op {
        Op::Semicolon => out.append("Semicolon"),
        Op::Equals => out.append("Equals"),
        Op::Comma => out.append("Comma"),
        Op::Arrow => out.append("Arrow"),
        Op::Empty => out.append("Empty"),
    }
}

fn write_quoted(out: &mut String, s: &String)
    ensures
        final(out)@ == old(out)@ + debug_quoted(s@),
{
    let d = debug_str(s.as_str());
    out.append(d.as_str());
}

/// Appends the debug text of a [`Thunk`].
pub fn write_thunk(out: &mut String, x: &Thunk)
    ensures
        final(out)@ == old(out)@ + debug_thunk(x@),
    decreases x,
{
    let ghost start = out@;
    out.append("Thunk(");
    write_env(out, &x.0);
    out.append(", ");
    write_exp(out, &x.1);
    out.append(")");
    proof {
        assert(out@ =~= start + debug_thunk(x@));
    }
}

/// Appends the debug text of an [`Exp`].
pub fn write_exp(out: &mut String, x: &Exp)
    ensures
        final(out)@ == old(out)@ + debug_exp(x@),
    decreases x,
{
    let ghost start = out@;
    match x {
        Exp::Let(f0, f1, f2) => {
            out.append("Let(");
            write_quoted(out, f0);
            out.append(", ");
            write_exp(out, f1);
            out.append(", ");
            write_exp(out, f2);
            out.append(")");
        },
        Exp::Cons(f0, f1) => {
            out.append("Cons(");
            write_exp(out, f0);
            out.append(", ");
            write_exp(out, f1);
            out.append(")");
        },
        Exp::Fun(f0, f1) => {
            out.append("Fun(");
            write_exp(out, f0);
            out.append(", ");
            write_exp(out, f1);
            out.append(")");
        },
        Exp::App(f0, f1) => {
            out.append("App(");
            write_exp(out, f0);
            out.append(", ");
            write_exp(out, f1);
            out.append(")");
        },
        Exp::Var(f0) => {
            out.append("Var(");
            write_quoted(out, f0);
            out.append(")");
        },
        Exp::Sym(f0) => {
            out.append("Sym(");
            write_quoted(out, f0);
            out.append(")");
        },
        Exp::Error(f0) => {
            out.append("Error(");
            write_error(out, f0);
            out.append(")");
        },
    }
    proof {
        assert(out@ =~= start + debug_exp(x@));
    }
}

/// Appends the debug text of a [`Data`].
pub fn write_data(out: &mut String, x: &Data)
    ensures
        final(out)@ == old(out)@ + debug_data(x@),
    decreases x,
{
    let ghost start = out@;
    match x {
        Data::Cons(f0, f1, f2) => {
            out.append("Cons(");
            write_env(out, f0);
            out.append(", ");
            write_exp(out, f1);
            out.append(", ");
            write_exp(out, f2);
            out.append(")");
        },
        Data::Fun(f0, f1, f2) => {
            out.append("Fun(");
            write_env(out, f0);
            out.append(", ");
            write_exp(out, f1);
            out.append(", ");
            write_exp(out, f2);
            out.append(")");
        },
        Data::Sym(f0) => {
            out.append("Sym(");
            write_quoted(out, f0);
            out.append(")");
        },
        Data::Error(f0) => {
            out.append("Error(");
            write_error(out, f0);
            out.append(")");
        },
    }
    proof {
        assert(out@ =~= start + debug_data(x@));
    }
}

/// Appends the text of an environment in an error, written as a map is.
pub fn write_env(out: &mut String, x: &Env)
    ensures
        final(out)@ == old(out)@ + debug_env(x@),
    decreases x,
{
    let ghost start = out@;
    match x {
        Env::Empty => {
            out.append("{}");
        },
        Env::Bind(f0, f1, f2) => {
            out.append("{");
            write_quoted(out, f0);
            out.append(": ");
            write_thunk(out, f1);
            write_more_entries(out, f2);
            out.append("}");
        },
    }
    proof {
        assert(out@ =~= start + debug_env(x@));
    }
}

/// Appends the bindings of an environment, each after `, `.
fn write_more_entries(out: &mut String, x: &Env)
    ensures
        final(out)@ == old(out)@ + debug_more_entries(x@),
    decreases x,
{
    let ghost start = out@;
    match x {
        Env::Empty => {},
        Env::Bind(f0, f1, f2) => {
            out.append(", ");
            write_quoted(out, f0);
            out.append(": ");
            write_thunk(out, f1);
            write_more_entries(out, f2);
        },
    }
    proof {
        assert(out@ =~= start + debug_more_entries(x@));
    }
}

/// Appends the debug text of a [`Bexp`].
pub fn write_bexp(out: &mut String, x: &Bexp)
    ensures
        final(out)@ == old(out)@ + debug_bexp(x@),
    decreases x,
{
    let ghost start = out@;
    match x {
        Bexp::Binary(f0, f1, f2) => {
            out.append("Binary(");
            write_bexp(out, f0);
            out.append(", ");
            write_op(out, *f1);
            out.append(", ");
            write_bexp(out, f2);
            out.append(")");
        },
        Bexp::Parens(f0) => {
            out.append("Parens(");
            write_bexp(out, f0);
            out.append(")");
        },
        Bexp::Var(f0) => {
            out.append("Var(");
            write_quoted(out, f0);
            out.append(")");
        },
        Bexp::Sym(f0) => {
            out.append("Sym(");
            write_quoted(out, f0);
            out.append(")");
        },
        Bexp::Error(f0) => {
            out.append("Error(");
            write_error(out, f0);
            out.append(")");
        },
    }
    proof {
        assert(out@ =~= start + debug_bexp(x@));
    }
}

/// Appends the debug text of an [`Error`].
pub fn write_error(out: &mut String, x: &Error)
    ensures
        final(out)@ == old(out)@ + debug_error(x@),
    decreases x,
{
    let ghost start = out@;
    match x {
        Error::ParseError(f0) => {
            out.append("ParseError(");
            write_quoted(out, f0);
            out.append(")");
        },
        Error::UnexpectedEquals(f0) => {
            out.append("UnexpectedEquals(");
            write_bexp(out, f0);
            out.append(")");
        },
        Error::ExpectedVar(f0) => {
            out.append("ExpectedVar(");
            write_bexp(out, f0);
            out.append(")");
        },
        Error::ExpectedEquals(f0) => {
            out.append("ExpectedEquals(");
            write_bexp(out, f0);
            out.append(")");
        },
        Error::Undefined(f0) => {
            out.append("Undefined(");
            write_quoted(out, f0);
            out.append(")");
        },
        Error::ApplySym(f0) => {
            out.append("ApplySym(");
            write_data(out, f0);
            out.append(")");
        },
        Error::PatternMatchExp(f0, f1) => {
            out.append("PatternMatchExp(");
            write_exp(out, f0);
            out.append(", ");
            write_exp(out, f1);
            out.append(")");
        },
        Error::PatternMatchData(f0, f1) => {
            out.append("PatternMatchData(");
            write_exp(out, f0);
            out.append(", ");
            write_data(out, f1);
            out.append(")");
        },
        Error::PatternMatchSym(f0, f1) => {
            out.append("PatternMatchSym(");
            write_quoted(out, f0);
            out.append(", ");
            write_quoted(out, f1);
            out.append(")");
        },
    }
    proof {
        assert(out@ =~= start + debug_error(x@));
    }
}

} // verus!
