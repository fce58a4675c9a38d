use super::instance::Bindings;
use crate::common::literal::{Literal, LiteralView};
use vstd::prelude::*;

verus! {

/// One scope at run time: the names bound in it, and the scope around it.
/// Scopes live in a list that the interpreter owns; `enclosing` is the place
/// of the outer scope in that list.
#[derive(Debug)]
pub struct Environment {
    pub values: Bindings,
    pub enclosing: Option<usize>,
}

/// An [`Environment`] with its bindings as a map.
pub struct EnvironmentView {
    pub values: Map<Seq<char>, LiteralView>,
    pub enclosing: Option<usize>,
}

impl View for Environment {
    type V = EnvironmentView;

    open spec fn view(&self) -> EnvironmentView {
        EnvironmentView { values: self.values@, enclosing: self.enclosing }
    }
}

impl Environment {
    /// Every name has its value.
    pub open spec fn wf(&self) -> bool {
        self.values.wf()
    }

    /// A scope with nothing around it.
    pub fn new() -> (r: Self)
        ensures
            r.wf(),
            r@ == (EnvironmentView { values: Map::empty(), enclosing: None }),
    {
        Self { values: Bindings::new(), enclosing: None }
    }

    /// An empty scope inside the scope at `enclosing`.
    pub fn new_with_environment(enclosing: usize) -> (r: Self)
        ensures
            r.wf(),
            r@ == (EnvironmentView { values: Map::empty(), enclosing: Some(enclosing) }),
    {
        Self { values: Bindings::new(), enclosing: Some(enclosing) }
    }

    /// Binds `name` in this scope, whether or not it was bound before.
    pub fn define(&mut self, name: String, value: Literal)
        requires
            old(self).wf(),
        ensures
            final(self).wf(),
            final(self)@ == (EnvironmentView {
                values: old(self)@.values.insert(name@, value@),
                enclosing: old(self)@.enclosing,
            }),
    {
        self.values.define(name, value);
    }

    /// The value of `name` in this scope.
    pub fn get(&self, name: &String) -> (r: Option<Literal>)
        requires
            self.wf(),
        ensures
            match r {
                Some(value) => self@.values.contains_key(name@) && self@.values[name@] == value@,
                None => !self@.values.contains_key(name@),
            },
    {
        self.values.get(name)
    }

    /// Gives `name` a new value if this scope binds it; returns the value it
    /// held before.
    pub fn assign(&mut self, name: &String, value: Literal) -> (r: Option<Literal>)
        requires
            old(self).wf(),
        ensures
            final(self).wf(),
            match r {
                Some(previous) => old(self)@.values.contains_key(name@) && previous@ == old(
                    self,
                )@.values[name@] && final(self)@ == (EnvironmentView {
                    values: old(self)@.values.insert(name@, value@),
                    enclosing: old(self)@.enclosing,
                }),
                None => !old(self)@.values.contains_key(name@) && final(self)@ == old(self)@,
            },
    {
        let previous = self.values.get(name);
        match previous {
            Some(held) => {
                self.values.assign(name, value);
                Some(held)
            },
            None => None,
        }
    }
}

} // verus!
