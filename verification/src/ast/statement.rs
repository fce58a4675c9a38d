use super::expression::{ExpressionNode, FunctionDeclaration, Identifier};
use std::rc::Rc;
use vstd::prelude::*;

verus! {

/// A statement of the program.
#[derive(Debug)]
pub enum Statement {
    PrintStatement(Box<ExpressionNode>),
    IfStatement(Box<ExpressionNode>, Box<Statement>, Option<Box<Statement>>),
    WhileStatement(Box<ExpressionNode>, Box<Statement>),
    ExpressionStatement(Box<ExpressionNode>),
    /// The name of the class and its methods.
    ClassDeclaration(Identifier, Rc<Vec<Rc<FunctionDeclaration>>>),
    VariableDeclaration(Identifier, Option<Box<ExpressionNode>>),
    FunctionDeclaration(Rc<FunctionDeclaration>),
    BlockStatement(Vec<Statement>),
    /// The line of the keyword, and the value where there is one.
    ReturnStatement(usize, Option<Box<ExpressionNode>>),
}

} // verus!
