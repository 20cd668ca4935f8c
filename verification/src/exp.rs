use vstd::prelude::*;

verus! {

/// An expression of the language.
#[derive(Debug, PartialEq)]
pub enum Exp {
    Let(String, Box<Exp>, Box<Exp>),
    Cons(Box<Exp>, Box<Exp>),
    Fun(Box<Exp>, Box<Exp>),
    App(Box<Exp>, Box<Exp>),
    Var(String),
    Sym(String),
    Error(Error),
}

/// The result of evaluating an expression to its head form: pairs and
/// functions keep their environment and unevaluated parts.
#[derive(Debug, PartialEq)]
pub enum Data {
    Cons(Env, Box<Exp>, Box<Exp>),
    Fun(Env, Box<Exp>, Box<Exp>),
    Sym(String),
    Error(Error),
}

/// A fully evaluated value: pairs are evaluated on both sides.
#[derive(Debug, PartialEq)]
pub enum Deep {
    Cons(Box<Deep>, Box<Deep>),
    Fun(Env, Box<Exp>, Box<Exp>),
    Sym(String),
    Error(Error),
}

/// An environment: a list of bindings from names to delayed expressions.
/// The first binding of a name is the one that counts; the operations of
/// this library keep each name bound at most once.
#[derive(Debug, PartialEq)]
pub enum Env {
    Empty,
    Bind(String, Box<Thunk>, Box<Env>),
}

/// A delayed expression together with the environment it is evaluated in.
#[derive(Debug, PartialEq)]
pub struct Thunk(pub Env, pub Exp);

/// The raw tree of binary operators that the parser builds before it is
/// turned into an expression.
#[derive(Debug, PartialEq)]
pub enum Bexp {
    Binary(Box<Bexp>, Op, Box<Bexp>),
    Parens(Box<Bexp>),
    Var(String),
    Sym(String),
    Error(Error),
}

/// Binary operators, from the loosest binding to the tightest.
#[derive(Debug, Clone, Copy, PartialEq, Eq, PartialOrd, Structural)]
pub enum Op {
    Semicolon,
    Equals,
    Comma,
    Arrow,
    Empty,
}

/// The side to which an operator associates.
#[derive(Debug, Clone, Copy, PartialEq, Eq, Structural)]
pub enum Side {
    Left,
    Right,
}

/// Everything that can go wrong in parsing and evaluation.
#[derive(Debug, PartialEq)]
pub enum Error {
    ParseError(String),
    UnexpectedEquals(Box<Bexp>),
    ExpectedVar(Box<Bexp>),
    ExpectedEquals(Box<Bexp>),
    Undefined(String),
    ApplySym(Box<Data>),
    PatternMatchExp(Box<Exp>, Box<Exp>),
    PatternMatchData(Box<Exp>, Box<Data>),
    PatternMatchSym(String, String),
}

impl Op {
    /// The side an operator associates to: all of them to the right but
    /// application, which associates to the left.
    pub open spec fn associativity(self) -> Side {
        match self {
            Op::Empty => Side::Left,
            _ => Side::Right,
        }
    }

    /// The position of an operator in the order of binding strength.
    pub open spec fn level(self) -> int {
        match self {
            Op::Semicolon => 0,
            Op::Equals => 1,
            Op::Comma => 2,
            Op::Arrow => 3,
            Op::Empty => 4,
        }
    }

    pub fn assoc(&self) -> (side: Side)
        ensures
            side == self.associativity(),
    {
        match *self {
            Op::Semicolon => Side::Right,
            Op::Equals => Side::Right,
            Op::Comma => Side::Right,
            Op::Arrow => Side::Right,
            Op::Empty => Side::Left,
        }
    }

    /// The level of the operator as a number.
    pub fn precedence(&self) -> (n: u8)
        ensures
            n == self.level(),
    {
        match *self {
            Op::Semicolon => 0,
            Op::Equals => 1,
            Op::Comma => 2,
            Op::Arrow => 3,
            Op::Empty => 4,
        }
    }
}


impl Exp {
    /// A copy of the expression, equal to it.
    fn duplicate(&self) -> (r: Exp)
        ensures
            r == *self,
        decreases self,
    {
        match self {
            Exp::Let(v, e, b) => Exp::Let(v.clone(), Box::new(e.duplicate()), Box::new(b.duplicate())),
            Exp::Cons(l, r) => Exp::Cons(Box::new(l.duplicate()), Box::new(r.duplicate())),
            Exp::Fun(l, r) => Exp::Fun(Box::new(l.duplicate()), Box::new(r.duplicate())),
            Exp::App(l, r) => Exp::App(Box::new(l.duplicate()), Box::new(r.duplicate())),
            Exp::Var(v) => Exp::Var(v.clone()),
            Exp::Sym(v) => Exp::Sym(v.clone()),
            Exp::Error(e) => Exp::Error(e.duplicate()),
        }
    }
}

impl Data {
    /// A copy of the data, equal to it.
    fn duplicate(&self) -> (r: Data)
        ensures
            r == *self,
        decreases self,
    {
        match self {
            Data::Cons(env, l, r) => Data::Cons(env.duplicate(), Box::new(l.duplicate()), Box::new(r.duplicate())),
            Data::Fun(env, l, r) => Data::Fun(env.duplicate(), Box::new(l.duplicate()), Box::new(r.duplicate())),
            Data::Sym(v) => Data::Sym(v.clone()),
            Data::Error(e) => Data::Error(e.duplicate()),
        }
    }
}

impl Deep {
    /// A copy of the value, equal to it.
    fn duplicate(&self) -> (r: Deep)
        ensures
            r == *self,
        decreases self,
    {
        match self {
            Deep::Cons(l, r) => Deep::Cons(Box::new(l.duplicate()), Box::new(r.duplicate())),
            Deep::Fun(env, l, r) => Deep::Fun(env.duplicate(), Box::new(l.duplicate()), Box::new(r.duplicate())),
            Deep::Sym(v) => Deep::Sym(v.clone()),
            Deep::Error(e) => Deep::Error(e.duplicate()),
        }
    }
}

impl Env {
    /// A copy of the environment, equal to it.
    fn duplicate(&self) -> (r: Env)
        ensures
            r == *self,
        decreases self,
    {
        match self {
            Env::Empty => Env::Empty,
            Env::Bind(v, t, rest) => Env::Bind(v.clone(), Box::new(t.duplicate()), Box::new(rest.duplicate())),
        }
    }
}

impl Thunk {
    /// A copy of the thunk, equal to it.
    fn duplicate(&self) -> (r: Thunk)
        ensures
            r == *self,
        decreases self,
    {
        Thunk(self.0.duplicate(), self.1.duplicate())
    }
}

impl Bexp {
    /// A copy of the tree, equal to it.
    fn duplicate(&self) -> (r: Bexp)
        ensures
            r == *self,
        decreases self,
    {
        match self {
            Bexp::Binary(l, op, r) => Bexp::Binary(Box::new(l.duplicate()), *op, Box::new(r.duplicate())),
            Bexp::Parens(b) => Bexp::Parens(Box::new(b.duplicate())),
            Bexp::Var(v) => Bexp::Var(v.clone()),
            Bexp::Sym(v) => Bexp::Sym(v.clone()),
            Bexp::Error(e) => Bexp::Error(e.duplicate()),
        }
    }
}

impl Error {
    /// A copy of the error, equal to it.
    fn duplicate(&self) -> (r: Error)
        ensures
            r == *self,
        decreases self,
    {
        match self {
            Error::ParseError(m) => Error::ParseError(m.clone()),
            Error::UnexpectedEquals(b) => Error::UnexpectedEquals(Box::new(b.duplicate())),
            Error::ExpectedVar(b) => Error::ExpectedVar(Box::new(b.duplicate())),
            Error::ExpectedEquals(b) => Error::ExpectedEquals(Box::new(b.duplicate())),
            Error::Undefined(v) => Error::Undefined(v.clone()),
            Error::ApplySym(d) => Error::ApplySym(Box::new(d.duplicate())),
            Error::PatternMatchExp(a, b) => Error::PatternMatchExp(Box::new(a.duplicate()), Box::new(b.duplicate())),
            Error::PatternMatchData(a, d) => Error::PatternMatchData(Box::new(a.duplicate()), Box::new(d.duplicate())),
            Error::PatternMatchSym(a, b) => Error::PatternMatchSym(a.clone(), b.clone()),
        }
    }
}


impl Clone for Exp {
    fn clone(&self) -> (r: Self)
        ensures
            r == *self,
    {
        self.duplicate()
    }
}

impl Clone for Data {
    fn clone(&self) -> (r: Self)
        ensures
            r == *self,
    {
        self.duplicate()
    }
}

impl Clone for Deep {
    fn clone(&self) -> (r: Self)
        ensures
            r == *self,
    {
        self.duplicate()
    }
}

impl Clone for Env {
    fn clone(&self) -> (r: Self)
        ensures
            r == *self,
    {
        self.duplicate()
    }
}

impl Clone for Thunk {
    fn clone(&self) -> (r: Self)
        ensures
            r == *self,
    {
        self.duplicate()
    }
}

impl Clone for Bexp {
    fn clone(&self) -> (r: Self)
        ensures
            r == *self,
    {
        self.duplicate()
    }
}

impl Clone for Error {
    fn clone(&self) -> (r: Self)
        ensures
            r == *self,
    {
        self.duplicate()
    }
}

} // verus!
