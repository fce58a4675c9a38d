use crate::ast::expression::FunctionDeclaration;
use std::rc::Rc;
use vstd::prelude::*;

verus! {

/// A class: its name, its methods, and the number that tells it from every
/// other class made by the same interpreter.
#[derive(Debug)]
pub struct LoxClass {
    pub name: String,
    pub methods: Rc<Vec<Rc<FunctionDeclaration>>>,
    pub id: usize,
}

impl Clone for LoxClass {
    fn clone(&self) -> (r: Self)
        ensures
            r == *self,
    {
        LoxClass { name: self.name.clone(), methods: self.methods.clone(), id: self.id }
    }
}

impl LoxClass {
    /// A class without methods.
    pub fn new(name: String) -> (r: LoxClass)
        ensures
            r.name == name,
            r.methods@.len() == 0,
            r.id == 0,
    {
        LoxClass { name, methods: Rc::new(Vec::new()), id: 0 }
    }

    /// A class with its methods and its number.
    pub fn with_methods(name: String, methods: Rc<Vec<Rc<FunctionDeclaration>>>, id: usize) -> (r:
        LoxClass)
        ensures
            r == (LoxClass { name, methods, id }),
    {
        LoxClass { name, methods, id }
    }

    /// The name of the class.
    pub fn to_string(&self) -> (r: String)
        ensures
            r == self.name,
    {
        self.name.clone()
    }
}

} // verus!
