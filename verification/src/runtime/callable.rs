use super::builtins::Clock;
use super::class::LoxClass;
use super::function::LoxFunction;
use crate::ast::expression::FunctionInfo;
use vstd::prelude::*;

verus! {

/// What every value that can be called offers: the number of arguments it
/// takes and the name it is shown under.
pub trait LoxCallable {
    spec fn arity_spec(&self) -> nat;

    spec fn name_spec(&self) -> Seq<char>;

    fn arity(&self) -> (r: usize)
        ensures
            r == self.arity_spec(),
    ;

    fn name(&self) -> (r: String)
        ensures
            r@ == self.name_spec(),
    ;
}

impl LoxCallable for Clock {
    open spec fn arity_spec(&self) -> nat {
        0
    }

    open spec fn name_spec(&self) -> Seq<char> {
        "clock"@
    }

    fn arity(&self) -> (r: usize) {
        0
    }

    fn name(&self) -> (r: String) {
        String::from_str("clock")
    }
}

impl LoxCallable for LoxFunction {
    open spec fn arity_spec(&self) -> nat {
        self.function.parameters_spec().len()
    }

    open spec fn name_spec(&self) -> Seq<char> {
        self.function.identifier_spec()
    }

    fn arity(&self) -> (r: usize) {
        self.function.parameters().len()
    }

    fn name(&self) -> (r: String) {
        self.function.identifier()
    }
}

impl LoxCallable for LoxClass {
    open spec fn arity_spec(&self) -> nat {
        0
    }

    open spec fn name_spec(&self) -> Seq<char> {
        self.name@
    }

    fn arity(&self) -> (r: usize) {
        0
    }

    fn name(&self) -> (r: String) {
        self.name.clone()
    }
}

/// A callable value that is not a class: the builtin or a function of the program.
#[derive(Debug)]
pub enum Callable {
    Builtin(Clock),
    Function(LoxFunction),
}

impl Clone for Callable {
    fn clone(&self) -> (r: Self)
        ensures
            r == *self,
    {
        match self {
            Callable::Builtin(clock) => Callable::Builtin(*clock),
            Callable::Function(function) => Callable::Function(function.clone()),
        }
    }
}

impl Callable {
    /// What tells one callable from another: nothing for the builtin, its number
    /// for a function.
    pub open spec fn identity(&self) -> Option<usize> {
        match *self {
            Callable::Builtin(_) => None,
            Callable::Function(function) => Some(function.id),
        }
    }

    /// What tells the callable from another.
    pub fn identity_of(&self) -> (r: Option<usize>)
        ensures
            r == self.identity(),
    {
        match self {
            Callable::Builtin(_) => None,
            Callable::Function(function) => Some(function.id),
        }
    }
}

impl LoxCallable for Callable {
    open spec fn arity_spec(&self) -> nat {
        match *self {
            Callable::Builtin(clock) => clock.arity_spec(),
            Callable::Function(function) => function.arity_spec(),
        }
    }

    open spec fn name_spec(&self) -> Seq<char> {
        match *self {
            Callable::Builtin(clock) => clock.name_spec(),
            Callable::Function(function) => function.name_spec(),
        }
    }

    fn arity(&self) -> (r: usize) {
        match self {
            Callable::Builtin(clock) => clock.arity(),
            Callable::Function(function) => function.arity(),
        }
    }

    fn name(&self) -> (r: String) {
        match self {
            Callable::Builtin(clock) => clock.name(),
            Callable::Function(function) => function.name(),
        }
    }
}

} // verus!
