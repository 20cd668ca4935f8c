use vstd::prelude::*;

use crate::exp::{Env, Thunk};
use crate::model::{SpecEnv, SpecThunk};

verus! {

impl SpecEnv {
    /// The thunk that a name is bound to: its first binding.
    pub open spec fn lookup(self, name: Seq<char>) -> Option<SpecThunk>
        decreases self,
    {
        match self {
            SpecEnv::Empty => None,
            SpecEnv::Bind(k, t, rest) => if k == name {
                Some(*t)
            } else {
                rest.lookup(name)
            },
        }
    }

    /// The environment without any binding of `name`.
    pub open spec fn without(self, name: Seq<char>) -> SpecEnv
        decreases self,
    {
        match self {
            SpecEnv::Empty => SpecEnv::Empty,
            SpecEnv::Bind(k, t, rest) => if k == name {
                rest.without(name)
            } else {
                SpecEnv::Bind(k, t, Box::new(rest.without(name)))
            },
        }
    }

    /// The environment with `name` bound to `thunk`, in place of any earlier
    /// binding of it.
    pub open spec fn inserted(self, name: Seq<char>, thunk: SpecThunk) -> SpecEnv {
        SpecEnv::Bind(name, Box::new(thunk), Box::new(self.without(name)))
    }

    /// The environment with every binding of `other` added, each one in place
    /// of the binding of the same name in `self`.
    pub open spec fn extended(self, other: SpecEnv) -> SpecEnv
        decreases other,
    {
        match other {
            SpecEnv::Empty => self,
            SpecEnv::Bind(k, t, rest) => self.extended(*rest).inserted(k, *t),
        }
    }

    /// The names bound, in order.
    pub open spec fn names(self) -> Seq<Seq<char>>
        decreases self,
    {
        match self {
            SpecEnv::Empty => Seq::empty(),
            SpecEnv::Bind(k, _, rest) => seq![k] + rest.names(),
        }
    }

    /// No name is bound twice.
    pub open spec fn well_formed(self) -> bool {
        self.names().no_duplicates()
    }
}

impl Env {
    /// An empty environment.
    pub fn new() -> (env: Env)
        ensures
            env == Env::Empty,
            env@ == SpecEnv::Empty,
            env@.well_formed(),
    {
        proof {
            assert(SpecEnv::Empty.names() =~= Seq::<Seq<char>>::empty());
        }
        Env::Empty
    }

    /// Removes every binding of `name`.
    pub fn remove_all(self, name: &String) -> (env: Env)
        ensures
            env@ == self@.without(name@),
            self@.well_formed() ==> env@.well_formed(),
        decreases self,
    {
        proof {
            lemma_names_without(self@, name@);
        }
        match self {
            Env::Empty => Env::Empty,
            Env::Bind(k, t, rest) => {
                let rest = rest.remove_all(name);
                if k == *name {
                    rest
                } else {
                    Env::Bind(k, t, Box::new(rest))
                }
            },
        }
    }

    /// Binds `name` to `thunk`, replacing any earlier binding of it.
    pub fn insert(self, name: String, thunk: Thunk) -> (env: Env)
        ensures
            env@ == self@.inserted(name@, thunk@),
            self@.well_formed() ==> env@.well_formed(),
    {
        proof {
            if self@.well_formed() {
                lemma_inserted_well_formed(self@, name@, thunk@);
            }
        }
        let rest = self.remove_all(&name);
        Env::Bind(name, Box::new(thunk), Box::new(rest))
    }

    /// Adds every binding of `other`, each in place of the binding of the
    /// same name.
    pub fn extend(self, other: Env) -> (env: Env)
        ensures
            env@ == self@.extended(other@),
            self@.well_formed() ==> env@.well_formed(),
        decreases other,
    {
        proof {
            if self@.well_formed() {
                lemma_extended_well_formed(self@, other@);
            }
        }
        match other {
            Env::Empty => self,
            Env::Bind(k, t, rest) => {
                let env = self.extend(*rest);
                env.insert(k, *t)
            },
        }
    }

    /// Takes the thunk a name is bound to out of the environment.
    pub fn take(self, name: &String) -> (thunk: Option<Thunk>)
        ensures
            (match thunk {
                Some(t) => self@.lookup(name@) == Some(t@),
                None => self@.lookup(name@) is None,
            }),
        decreases self,
    {
        match self {
            Env::Empty => None,
            Env::Bind(k, t, rest) => {
                if k == *name {
                    Some(*t)
                } else {
                    rest.take(name)
                }
            },
        }
    }
}

/// After removing a name, it is unbound and every other name keeps its
/// binding.
pub proof fn lemma_lookup_without(env: SpecEnv, name: Seq<char>, other: Seq<char>)
    ensures
        env.without(name).lookup(other) == if other == name {
            None
        } else {
            env.lookup(other)
        },
    decreases env,
{
    match env {
        SpecEnv::Empty => {},
        SpecEnv::Bind(k, t, rest) => lemma_lookup_without(*rest, name, other),
    }
}

/// A read after an insert gives back what was inserted, and every other
/// name keeps its binding.
pub proof fn lemma_lookup_inserted(env: SpecEnv, name: Seq<char>, thunk: SpecThunk, other: Seq<char>)
    ensures
        env.inserted(name, thunk).lookup(other) == if other == name {
            Some(thunk)
        } else {
            env.lookup(other)
        },
{
    lemma_lookup_without(env, name, other);
}

/// After an extension, a name bound in the added environment has that
/// binding, and any other name keeps its binding.
pub proof fn lemma_lookup_extended(env: SpecEnv, other: SpecEnv, name: Seq<char>)
    ensures
        env.extended(other).lookup(name) == match other.lookup(name) {
            Some(t) => Some(t),
            None => env.lookup(name),
        },
    decreases other,
{
    match other {
        SpecEnv::Empty => {},
        SpecEnv::Bind(k, t, rest) => {
            lemma_lookup_extended(env, *rest, name);
            lemma_lookup_inserted(env.extended(*rest), k, *t, name);
        },
    }
}

proof fn lemma_names_without(env: SpecEnv, name: Seq<char>)
    ensures
        forall|n: Seq<char>|
            env.without(name).names().contains(n) <==> (env.names().contains(n) && n != name),
        env.well_formed() ==> env.without(name).well_formed(),
    decreases env,
{
    match env {
        SpecEnv::Empty => {
            assert(env.names().len() == 0);
            assert(env.without(name).names().len() == 0);
        },
        SpecEnv::Bind(k, t, rest) => {
            lemma_names_without(*rest, name);
            let names = env.names();
            assert(names == seq![k] + rest.names());
            assert forall|n: Seq<char>| names.contains(n) <==> (n == k || rest.names().contains(n)) by {
                if names.contains(n) {
                    let i = choose|i: int| 0 <= i < names.len() && names[i] == n;
                    if i > 0 {
                        assert(rest.names()[i - 1] == n);
                    }
                }
                if rest.names().contains(n) {
                    let i = choose|i: int| 0 <= i < rest.names().len() && rest.names()[i] == n;
                    assert(names[i + 1] == n);
                }
                if n == k {
                    assert(names[0] == n);
                }
            }
            if k != name {
                let w = env.without(name).names();
                let rw = rest.without(name).names();
                assert(w == seq![k] + rw);
                assert forall|n: Seq<char>| w.contains(n) <==> (n == k || rw.contains(n)) by {
                    if w.contains(n) {
                        let i = choose|i: int| 0 <= i < w.len() && w[i] == n;
                        if i > 0 {
                            assert(rw[i - 1] == n);
                        }
                    }
                    if rw.contains(n) {
                        let i = choose|i: int| 0 <= i < rw.len() && rw[i] == n;
                        assert(w[i + 1] == n);
                    }
                    if n == k {
                        assert(w[0] == n);
                    }
                }
                if env.well_formed() {
                    assert(rest.names().no_duplicates()) by {
                        assert forall|i: int, j: int| 0 <= i < rest.names().len() && 0 <= j < rest.names().len() && i != j
                            implies rest.names()[i] != rest.names()[j] by {
                            assert(names[i + 1] == rest.names()[i]);
                            assert(names[j + 1] == rest.names()[j]);
                        }
                    }
                    assert(!rest.names().contains(k)) by {
                        if rest.names().contains(k) {
                            let i = choose|i: int| 0 <= i < rest.names().len() && rest.names()[i] == k;
                            assert(names[i + 1] == k);
                            assert(names[0] == k);
                        }
                    }
                    lemma_cons_no_duplicates(k, rw);
                }
            } else if env.well_formed() {
                assert forall|i: int, j: int| 0 <= i < rest.names().len() && 0 <= j < rest.names().len() && i != j
                    implies rest.names()[i] != rest.names()[j] by {
                    assert(names[i + 1] == rest.names()[i]);
                    assert(names[j + 1] == rest.names()[j]);
                }
            }
        },
    }
}

proof fn lemma_cons_no_duplicates(first: Seq<char>, rest: Seq<Seq<char>>)
    requires
        rest.no_duplicates(),
        !rest.contains(first),
    ensures
        (seq![first] + rest).no_duplicates(),
{
    let all = seq![first] + rest;
    assert forall|i: int, j: int| 0 <= i < all.len() && 0 <= j < all.len() && i != j implies all[i] != all[j] by {
        if i == 0 {
            assert(all[j] == rest[j - 1]);
        } else if j == 0 {
            assert(all[i] == rest[i - 1]);
        } else {
            assert(all[i] == rest[i - 1]);
            assert(all[j] == rest[j - 1]);
        }
    }
}

/// Inserting keeps every name bound at most once.
pub proof fn lemma_inserted_well_formed(env: SpecEnv, name: Seq<char>, thunk: SpecThunk)
    requires
        env.well_formed(),
    ensures
        env.inserted(name, thunk).well_formed(),
{
    let rest = env.without(name);
    lemma_names_without(env, name);
    assert(env.inserted(name, thunk).names() == seq![name] + rest.names());
    lemma_cons_no_duplicates(name, rest.names());
}

/// Extending keeps every name bound at most once.
pub proof fn lemma_extended_well_formed(env: SpecEnv, other: SpecEnv)
    requires
        env.well_formed(),
    ensures
        env.extended(other).well_formed(),
    decreases other,
{
    match other {
        SpecEnv::Empty => {},
        SpecEnv::Bind(k, t, rest) => {
            lemma_extended_well_formed(env, *rest);
            lemma_inserted_well_formed(env.extended(*rest), k, *t);
        },
    }
}

} // verus!
