//! Lexical environments.
//!
//! An `Environment` is an arena of scopes.  Each scope maps identifiers to
//! values and may name an enclosing scope by its index in the arena; the
//! enclosing scope always stands earlier in the arena than the scope that
//! names it.  Closures capture the index of their defining scope, so a
//! binding introduced in that scope after the capture is still visible to
//! the closure, and the captured scope stays observable for the life of
//! the closure.

use vstd::prelude::*;

use vstd::pervasive::VecAdditionalExecFns;

use crate::object::Object;
use crate::object::ObjectV;
use crate::text::string_eq_str;

verus! {

/// One lexical scope: its bindings in insertion order, and the index of
/// the enclosing scope, if any.
#[derive(Debug)]
pub struct Scope {
    pub bindings: Vec<(String, Object)>,
    pub outer: Option<usize>,
}

/// Model of a scope.
pub struct ScopeV {
    pub bindings: Seq<(Seq<char>, ObjectV)>,
    pub outer: Option<int>,
}

/// Models of the bindings from index `i` on.
pub open spec fn bindings_view(bs: Seq<(String, Object)>, i: int) -> Seq<(Seq<char>, ObjectV)>
    decreases bs.len() - i,
{
    if i < 0 || i >= bs.len() {
        Seq::empty()
    } else {
        seq![(bs[i].0@, bs[i].1@)] + bindings_view(bs, i + 1)
    }
}

/// Length and elements of `bindings_view`.
pub broadcast proof fn lemma_bindings_view(bs: Seq<(String, Object)>, i: int)
    ensures
        0 <= i <= bs.len() ==> #[trigger] bindings_view(bs, i).len() == bs.len() - i,
        forall|k: int|
            0 <= i && 0 <= k < bs.len() - i ==> #[trigger] bindings_view(bs, i)[k] == (
            bs[i + k].0@,
            bs[i + k].1@,
            ),
    decreases bs.len() - i,
{
    if 0 <= i < bs.len() {
        lemma_bindings_view(bs, i + 1);
        assert forall|k: int| 0 <= i && 0 <= k < bs.len() - i implies #[trigger] bindings_view(
            bs,
            i,
        )[k] == (bs[i + k].0@, bs[i + k].1@) by {
            if k > 0 {
                assert(bindings_view(bs, i + 1)[k - 1] == (
                    bs[(i + 1) + (k - 1)].0@,
                    bs[(i + 1) + (k - 1)].1@,
                ));
            }
        }
    }
}

/// Model of a scope value.
pub open spec fn scope_view(s: Scope) -> ScopeV {
    ScopeV {
        bindings: bindings_view(s.bindings@, 0),
        outer: match s.outer {
            Some(o) => Some(o as int),
            None => None,
        },
    }
}

impl View for Scope {
    type V = ScopeV;

    open spec fn view(&self) -> ScopeV {
        scope_view(*self)
    }
}

/// Models of the scopes from index `i` on.
pub open spec fn scopes_view(ss: Seq<Scope>, i: int) -> Seq<ScopeV>
    decreases ss.len() - i,
{
    if i < 0 || i >= ss.len() {
        Seq::empty()
    } else {
        seq![scope_view(ss[i])] + scopes_view(ss, i + 1)
    }
}

/// Length and elements of `scopes_view`.
pub broadcast proof fn lemma_scopes_view(ss: Seq<Scope>, i: int)
    ensures
        0 <= i <= ss.len() ==> #[trigger] scopes_view(ss, i).len() == ss.len() - i,
        forall|k: int|
            0 <= i && 0 <= k < ss.len() - i ==> #[trigger] scopes_view(ss, i)[k] == scope_view(
                ss[i + k],
            ),
    decreases ss.len() - i,
{
    if 0 <= i < ss.len() {
        lemma_scopes_view(ss, i + 1);
        assert forall|k: int| 0 <= i && 0 <= k < ss.len() - i implies #[trigger] scopes_view(ss, i)[k]
            == scope_view(ss[i + k]) by {
            if k > 0 {
                assert(scopes_view(ss, i + 1)[k - 1] == scope_view(ss[(i + 1) + (k - 1)]));
            }
        }
    }
}

/// The arena of scopes that a program is evaluated against.
#[derive(Debug)]
pub struct Environment {
    scopes: Vec<Scope>,
}

impl View for Environment {
    type V = Seq<ScopeV>;

    closed spec fn view(&self) -> Seq<ScopeV> {
        scopes_view(self.scopes@, 0)
    }
}

/// The first binding of `name` among a scope's bindings from index `i` on.
pub open spec fn bindings_lookup(bs: Seq<(Seq<char>, ObjectV)>, i: int, name: Seq<char>) -> Option<
    ObjectV,
>
    decreases bs.len() - i,
{
    if i < 0 || i >= bs.len() {
        None
    } else if bs[i].0 == name {
        Some(bs[i].1)
    } else {
        bindings_lookup(bs, i + 1, name)
    }
}

/// The value of `name` seen from scope `at`: its local binding if there is
/// one, else the binding along the chain of enclosing scopes.  The walk
/// only follows references to earlier scopes, which is how the arena is
/// built.
pub open spec fn lookup_in(scopes: Seq<ScopeV>, at: int, name: Seq<char>) -> Option<ObjectV>
    decreases at,
{
    if at < 0 || at >= scopes.len() {
        None
    } else {
        match bindings_lookup(scopes[at].bindings, 0, name) {
            Some(v) => Some(v),
            None => match scopes[at].outer {
                Some(o) => if 0 <= o < at {
                    lookup_in(scopes, o, name)
                } else {
                    None
                },
                None => None,
            },
        }
    }
}

/// The bindings after `name` is set: the first binding of `name` from
/// index `i` on is replaced, or a new binding is appended.
pub open spec fn bindings_set(
    bs: Seq<(Seq<char>, ObjectV)>,
    i: int,
    name: Seq<char>,
    value: ObjectV,
) -> Seq<(Seq<char>, ObjectV)>
    decreases bs.len() - i,
{
    if i < 0 || i >= bs.len() {
        bs.push((name, value))
    } else if bs[i].0 == name {
        bs.update(i, (name, value))
    } else {
        bindings_set(bs, i + 1, name, value)
    }
}

/// The scopes after `name` is bound to `value` in scope `at`.
pub open spec fn env_set(scopes: Seq<ScopeV>, at: int, name: Seq<char>, value: ObjectV) -> Seq<
    ScopeV,
> {
    if 0 <= at < scopes.len() {
        scopes.update(
            at,
            ScopeV {
                bindings: bindings_set(scopes[at].bindings, 0, name, value),
                outer: scopes[at].outer,
            },
        )
    } else {
        scopes
    }
}

/// The scopes after a new empty scope enclosed by `outer` is added.
pub open spec fn env_push(scopes: Seq<ScopeV>, outer: int) -> Seq<ScopeV> {
    scopes.push(ScopeV { bindings: Seq::empty(), outer: Some(outer) })
}

/// The first binding of `name` from index `i` on, as an owned value.
fn bindings_find(bs: &Vec<(String, Object)>, i: usize, name: &str) -> (r: Option<Object>)
    ensures
        match (r, bindings_lookup(bindings_view(bs@, 0), i as int, name@)) {
            (Some(o), Some(v)) => o@ == v,
            (None, None) => true,
            _ => false,
        },
    decreases bs.len() - i,
{
    proof {
        lemma_bindings_view(bs@, 0);
    }
    if i >= bs.len() {
        None
    } else if string_eq_str(&bs[i].0, name) {
        Some(bs[i].1.duplicate())
    } else {
        bindings_find(bs, i + 1, name)
    }
}

/// Replaces the first binding of `name` from index `i` on, or appends one.
fn bindings_put(bs: &mut Vec<(String, Object)>, i: usize, name: String, value: Object)
    ensures
        bindings_view(final(bs)@, 0) == bindings_set(
            bindings_view(old(bs)@, 0),
            i as int,
            name@,
            value@,
        ),
    decreases old(bs).len() - i,
{
    proof {
        lemma_bindings_view(bs@, 0);
    }
    if i >= bs.len() {
        let ghost old_bs = bs@;
        bs.push((name, value));
        proof {
            lemma_bindings_view(bs@, 0);
            lemma_bindings_view(old_bs, 0);
            assert(bindings_view(bs@, 0) =~= bindings_view(old_bs, 0).push((name@, value@)));
        }
    } else if string_eq_str(&bs[i].0, name.as_str()) {
        let ghost old_bs = bs@;
        bs.set(i, (name, value));
        proof {
            lemma_bindings_view(bs@, 0);
            lemma_bindings_view(old_bs, 0);
            assert(bindings_view(bs@, 0) =~= bindings_view(old_bs, 0).update(
                i as int,
                (name@, value@),
            ));
        }
    } else {
        bindings_put(bs, i + 1, name, value);
    }
}

impl Environment {
    /// A fresh environment: one global scope with no bindings.
    pub fn new() -> (r: Environment)
        ensures
            r@ == seq![ScopeV { bindings: Seq::<(Seq<char>, ObjectV)>::empty(), outer: None }],
    {
        let mut scopes: Vec<Scope> = Vec::new();
        scopes.push(Scope { bindings: Vec::new(), outer: None });
        let r = Environment { scopes };
        proof {
            lemma_scopes_view(r.scopes@, 0);
            lemma_bindings_view(r.scopes@[0].bindings@, 0);
            assert(r@ =~= seq![
                ScopeV { bindings: Seq::<(Seq<char>, ObjectV)>::empty(), outer: None },
            ]);
        }
        r
    }

    /// How many scopes the arena holds.
    pub fn scope_count(&self) -> (n: usize)
        ensures
            n == self@.len(),
    {
        proof {
            lemma_scopes_view(self.scopes@, 0);
        }
        self.scopes.len()
    }

    /// Adds a new scope with no bindings, enclosed by scope `outer`;
    /// returns its index.
    pub fn new_enclosed(&mut self, outer: usize) -> (id: usize)
        ensures
            final(self)@ == env_push(old(self)@, outer as int),
            id == old(self)@.len(),
    {
        proof {
            lemma_scopes_view(self.scopes@, 0);
        }
        let id = self.scopes.len();
        let ghost old_scopes = self.scopes@;
        self.scopes.push(Scope { bindings: Vec::new(), outer: Some(outer) });
        proof {
            lemma_scopes_view(self.scopes@, 0);
            lemma_scopes_view(old_scopes, 0);
            lemma_bindings_view(self.scopes@[id as int].bindings@, 0);
            assert(scopes_view(self.scopes@, 0) =~= env_push(
                scopes_view(old_scopes, 0),
                outer as int,
            ));
        }
        id
    }

    /// The value of `name` seen from scope `at`.
    pub fn get(&self, at: usize, name: &str) -> (r: Option<Object>)
        ensures
            match (r, lookup_in(self@, at as int, name@)) {
                (Some(o), Some(v)) => o@ == v,
                (None, None) => true,
                _ => false,
            },
        decreases at,
    {
        proof {
            lemma_scopes_view(self.scopes@, 0);
        }
        if at >= self.scopes.len() {
            return None;
        }
        match bindings_find(&self.scopes[at].bindings, 0, name) {
            Some(v) => Some(v),
            None => match self.scopes[at].outer {
                Some(o) => if o < at {
                    self.get(o, name)
                } else {
                    None
                },
                None => None,
            },
        }
    }

    /// Binds `name` to `value` in scope `at`: replaces the scope's own
    /// binding of `name` if there is one, else introduces one.  Bindings
    /// of enclosing scopes are never touched.
    pub fn set(&mut self, at: usize, name: String, value: Object)
        ensures
            final(self)@ == env_set(old(self)@, at as int, name@, value@),
    {
        proof {
            lemma_scopes_view(self.scopes@, 0);
        }
        if at >= self.scopes.len() {
            return ;
        }
        let mut scope = Scope { bindings: Vec::new(), outer: None };
        self.scopes.set_and_swap(at, &mut scope);
        let ghost swapped = self.scopes@;
        let ghost scope_before = scope;
        bindings_put(&mut scope.bindings, 0, name, value);
        self.scopes.set_and_swap(at, &mut scope);
        proof {
            lemma_scopes_view(self.scopes@, 0);
            lemma_scopes_view(old(self).scopes@, 0);
            assert(scopes_view(self.scopes@, 0) =~= env_set(
                scopes_view(old(self).scopes@, 0),
                at as int,
                name@,
                value@,
            ));
        }
    }
}

} // verus!
