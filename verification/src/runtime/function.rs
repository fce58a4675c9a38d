use crate::ast::expression::Function;
use vstd::prelude::*;

verus! {

/// A function of the program as a value: its syntax, the environment that was
/// current where it was made, and the number that tells it from every other
/// function value made by the same interpreter.
#[derive(Debug)]
pub struct LoxFunction {
    pub function: Function,
    pub closure: usize,
    pub id: usize,
}

impl Clone for LoxFunction {
    fn clone(&self) -> (r: Self)
        ensures
            r == *self,
    {
        LoxFunction { function: self.function.clone(), closure: self.closure, id: self.id }
    }
}

impl LoxFunction {
    /// A function value.
    pub fn new(function: Function, closure: usize, id: usize) -> (r: LoxFunction)
        ensures
            r == (LoxFunction { function, closure, id }),
    {
        LoxFunction { function, closure, id }
    }
}

} // verus!
