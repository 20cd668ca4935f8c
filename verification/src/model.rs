use vstd::prelude::*;

use crate::exp::{Bexp, Data, Deep, Env, Error, Exp, Op, Thunk};

verus! {

// The mathematical values of the types of `exp`: the same trees, with each
// name or message taken as its sequence of characters.

/// The value of an [`Exp`].
pub enum SpecExp {
    Let(Seq<char>, Box<SpecExp>, Box<SpecExp>),
    Cons(Box<SpecExp>, Box<SpecExp>),
    Fun(Box<SpecExp>, Box<SpecExp>),
    App(Box<SpecExp>, Box<SpecExp>),
    Var(Seq<char>),
    Sym(Seq<char>),
    Error(SpecError),
}

/// The value of a [`Data`].
pub enum SpecData {
    Cons(SpecEnv, Box<SpecExp>, Box<SpecExp>),
    Fun(SpecEnv, Box<SpecExp>, Box<SpecExp>),
    Sym(Seq<char>),
    Error(SpecError),
}

/// The value of a [`Deep`].
pub enum SpecDeep {
    Cons(Box<SpecDeep>, Box<SpecDeep>),
    Fun(SpecEnv, Box<SpecExp>, Box<SpecExp>),
    Sym(Seq<char>),
    Error(SpecError),
}

/// The value of an [`Env`].
pub enum SpecEnv {
    Empty,
    Bind(Seq<char>, Box<SpecThunk>, Box<SpecEnv>),
}

/// The value of a [`Thunk`].
pub struct SpecThunk(pub SpecEnv, pub SpecExp);

/// The value of a [`Bexp`].
pub enum SpecBexp {
    Binary(Box<SpecBexp>, Op, Box<SpecBexp>),
    Parens(Box<SpecBexp>),
    Var(Seq<char>),
    Sym(Seq<char>),
    Error(SpecError),
}

/// The value of an [`Error`].
pub enum SpecError {
    ParseError(Seq<char>),
    UnexpectedEquals(Box<SpecBexp>),
    ExpectedVar(Box<SpecBexp>),
    ExpectedEquals(Box<SpecBexp>),
    Undefined(Seq<char>),
    ApplySym(Box<SpecData>),
    PatternMatchExp(Box<SpecExp>, Box<SpecExp>),
    PatternMatchData(Box<SpecExp>, Box<SpecData>),
    PatternMatchSym(Seq<char>, Seq<char>),
}

pub open spec fn exp_view(e: Exp) -> SpecExp
    decreases e,
{
    match e {
        Exp::Let(v, x, b) => SpecExp::Let(v@, Box::new(exp_view(*x)), Box::new(exp_view(*b))),
        Exp::Cons(l, r) => SpecExp::Cons(Box::new(exp_view(*l)), Box::new(exp_view(*r))),
        Exp::Fun(l, r) => SpecExp::Fun(Box::new(exp_view(*l)), Box::new(exp_view(*r))),
        Exp::App(l, r) => SpecExp::App(Box::new(exp_view(*l)), Box::new(exp_view(*r))),
        Exp::Var(v) => SpecExp::Var(v@),
        Exp::Sym(v) => SpecExp::Sym(v@),
        Exp::Error(x) => SpecExp::Error(error_view(x)),
    }
}

pub open spec fn data_view(d: Data) -> SpecData
    decreases d,
{
    match d {
        Data::Cons(env, l, r) => SpecData::Cons(env_view(env), Box::new(exp_view(*l)), Box::new(exp_view(*r))),
        Data::Fun(env, l, r) => SpecData::Fun(env_view(env), Box::new(exp_view(*l)), Box::new(exp_view(*r))),
        Data::Sym(v) => SpecData::Sym(v@),
        Data::Error(x) => SpecData::Error(error_view(x)),
    }
}

pub open spec fn deep_view(d: Deep) -> SpecDeep
    decreases d,
{
    match d {
        Deep::Cons(l, r) => SpecDeep::Cons(Box::new(deep_view(*l)), Box::new(deep_view(*r))),
        Deep::Fun(env, l, r) => SpecDeep::Fun(env_view(env), Box::new(exp_view(*l)), Box::new(exp_view(*r))),
        Deep::Sym(v) => SpecDeep::Sym(v@),
        Deep::Error(x) => SpecDeep::Error(error_view(x)),
    }
}

pub open spec fn env_view(env: Env) -> SpecEnv
    decreases env,
{
    match env {
        Env::Empty => SpecEnv::Empty,
        Env::Bind(k, t, rest) => SpecEnv::Bind(k@, Box::new(thunk_view(*t)), Box::new(env_view(*rest))),
    }
}

pub open spec fn thunk_view(t: Thunk) -> SpecThunk
    decreases t,
{
    SpecThunk(env_view(t.0), exp_view(t.1))
}

pub open spec fn bexp_view(b: Bexp) -> SpecBexp
    decreases b,
{
    match b {
        Bexp::Binary(l, op, r) => SpecBexp::Binary(Box::new(bexp_view(*l)), op, Box::new(bexp_view(*r))),
        Bexp::Parens(x) => SpecBexp::Parens(Box::new(bexp_view(*x))),
        Bexp::Var(v) => SpecBexp::Var(v@),
        Bexp::Sym(v) => SpecBexp::Sym(v@),
        Bexp::Error(x) => SpecBexp::Error(error_view(x)),
    }
}

pub open spec fn error_view(e: Error) -> SpecError
    decreases e,
{
    match e {
        Error::ParseError(m) => SpecError::ParseError(m@),
        Error::UnexpectedEquals(b) => SpecError::UnexpectedEquals(Box::new(bexp_view(*b))),
        Error::ExpectedVar(b) => SpecError::ExpectedVar(Box::new(bexp_view(*b))),
        Error::ExpectedEquals(b) => SpecError::ExpectedEquals(Box::new(bexp_view(*b))),
        Error::Undefined(v) => SpecError::Undefined(v@),
        Error::ApplySym(d) => SpecError::ApplySym(Box::new(data_view(*d))),
        Error::PatternMatchExp(a, b) => SpecError::PatternMatchExp(Box::new(exp_view(*a)), Box::new(exp_view(*b))),
        Error::PatternMatchData(a, d) => SpecError::PatternMatchData(Box::new(exp_view(*a)), Box::new(data_view(*d))),
        Error::PatternMatchSym(a, b) => SpecError::PatternMatchSym(a@, b@),
    }
}

impl View for Exp {
    type V = SpecExp;

    open spec fn view(&self) -> SpecExp {
        exp_view(*self)
    }
}

impl View for Data {
    type V = SpecData;

    open spec fn view(&self) -> SpecData {
        data_view(*self)
    }
}

impl View for Deep {
    type V = SpecDeep;

    open spec fn view(&self) -> SpecDeep {
        deep_view(*self)
    }
}

impl View for Env {
    type V = SpecEnv;

    open spec fn view(&self) -> SpecEnv {
        env_view(*self)
    }
}

impl View for Thunk {
    type V = SpecThunk;

    open spec fn view(&self) -> SpecThunk {
        thunk_view(*self)
    }
}

impl View for Bexp {
    type V = SpecBexp;

    open spec fn view(&self) -> SpecBexp {
        bexp_view(*self)
    }
}

impl View for Error {
    type V = SpecError;

    open spec fn view(&self) -> SpecError {
        error_view(*self)
    }
}

} // verus!
