use super::operators::{BinaryOperator, LogicalOperator, TernaryOperator, UnaryOperator};
use super::statement::Statement;
use crate::common::literal::Literal;
use crate::scanner::tokens::Token;
use std::rc::Rc;
use vstd::prelude::*;

verus! {

/// An expression together with the line of its principal token.
#[derive(Debug)]
pub struct ExpressionNode {
    pub line: usize,
    pub expr: Expression,
}

impl ExpressionNode {
    /// A node for `expr`, whose principal token stands on `line`.
    pub fn new(line: usize, expr: Expression) -> (r: Self)
        ensures
            r == (ExpressionNode { line, expr }),
    {
        Self { line, expr }
    }

    /// The expression of the node.
    pub fn expression(&self) -> (r: &Expression)
        ensures
            *r == self.expr,
    {
        &self.expr
    }

    /// The line of the principal token.
    pub fn line(&self) -> (r: usize)
        ensures
            r == self.line,
    {
        self.line
    }
}

/// A named function: `fun NAME(PARAMETERS) { BODY }`.
#[derive(Debug)]
pub struct FunctionDeclaration {
    pub identifier: Identifier,
    pub parameters: Vec<Identifier>,
    pub body: Vec<Statement>,
}

impl FunctionDeclaration {
    /// A function with the given name, parameters and body.
    pub fn new(identifier: Identifier, parameters: Vec<Identifier>, body: Vec<Statement>) -> (r:
        Self)
        ensures
            r == (FunctionDeclaration { identifier, parameters, body }),
    {
        Self { identifier, parameters, body }
    }
}

/// A function without a name: `fun (PARAMETERS) { BODY }`.
#[derive(Debug)]
pub struct FunctionExpression {
    pub parameters: Vec<Identifier>,
    pub body: Vec<Statement>,
}

impl FunctionExpression {
    /// A function without a name.
    pub fn new(parameters: Vec<Identifier>, body: Vec<Statement>) -> (r: Self)
        ensures
            r == (FunctionExpression { parameters, body }),
    {
        Self { parameters, body }
    }
}

/// The syntax of a function value.
#[derive(Debug)]
pub enum Function {
    Declaration(Rc<FunctionDeclaration>),
    Expression(Rc<FunctionExpression>),
}

impl Clone for Function {
    fn clone(&self) -> (r: Self)
        ensures
            r == *self,
    {
        match self {
            Function::Declaration(declaration) => Function::Declaration(declaration.clone()),
            Function::Expression(expression) => Function::Expression(expression.clone()),
        }
    }
}

/// What the evaluator asks of the syntax of a function.
pub trait FunctionInfo {
    spec fn identifier_spec(&self) -> Seq<char>;

    spec fn parameters_spec(&self) -> Seq<Identifier>;

    spec fn body_spec(&self) -> Seq<Statement>;

    /// The name of the function; `fn anonymous` where it has none.
    fn identifier(&self) -> (r: String)
        ensures
            r@ == self.identifier_spec(),
    ;

    fn parameters(&self) -> (r: &Vec<Identifier>)
        ensures
            r@ == self.parameters_spec(),
    ;

    fn body(&self) -> (r: &Vec<Statement>)
        ensures
            r@ == self.body_spec(),
    ;
}

impl FunctionInfo for Function {
    open spec fn identifier_spec(&self) -> Seq<char> {
        match *self {
            Function::Declaration(declaration) => declaration.identifier.name@,
            Function::Expression(_) => "fn anonymous"@,
        }
    }

    open spec fn parameters_spec(&self) -> Seq<Identifier> {
        match *self {
            Function::Declaration(declaration) => declaration.parameters@,
            Function::Expression(expression) => expression.parameters@,
        }
    }

    open spec fn body_spec(&self) -> Seq<Statement> {
        match *self {
            Function::Declaration(declaration) => declaration.body@,
            Function::Expression(expression) => expression.body@,
        }
    }

    fn identifier(&self) -> (r: String) {
        match self {
            Function::Declaration(declaration) => declaration.identifier.get_name(),
            Function::Expression(_) => String::from_str("fn anonymous"),
        }
    }

    fn parameters(&self) -> (r: &Vec<Identifier>) {
        match self {
            Function::Declaration(declaration) => &declaration.parameters,
            Function::Expression(expression) => &expression.parameters,
        }
    }

    fn body(&self) -> (r: &Vec<Statement>) {
        match self {
            Function::Declaration(declaration) => &declaration.body,
            Function::Expression(expression) => &expression.body,
        }
    }
}

/// A name as it stands in the source text, with its line.
#[derive(Debug)]
pub struct Identifier {
    pub name: String,
    pub line: usize,
}

impl Clone for Identifier {
    fn clone(&self) -> (r: Self)
        ensures
            r == *self,
    {
        Identifier { name: self.name.clone(), line: self.line }
    }
}

impl Identifier {
    /// The name `name` as it stands on `line`.
    pub fn new(name: String, line: usize) -> (r: Self)
        ensures
            r == (Identifier { name, line }),
    {
        Self { name, line }
    }

    /// The identifier that a token names.
    pub fn token_to_id(token: Token) -> (r: Self)
        ensures
            r == (Identifier { name: token.lexeme, line: token.line }),
    {
        Self { name: token.lexeme, line: token.line }
    }

    /// A copy of the name.
    pub fn get_name(&self) -> (r: String)
        ensures
            r == self.name,
    {
        self.name.clone()
    }

    /// The line on which the name stands.
    pub fn get_line(&self) -> (r: usize)
        ensures
            r == self.line,
    {
        self.line
    }
}

/// A reference to a variable: the name, and the number of scopes between the
/// reference and the scope that binds the name. Without that number the name is
/// looked up among the globals.
#[derive(Debug)]
pub struct Variable {
    pub identifier: Identifier,
    pub depth: Option<usize>,
}

impl Clone for Variable {
    fn clone(&self) -> (r: Self)
        ensures
            r == *self,
    {
        Variable { identifier: self.identifier.clone(), depth: self.depth }
    }
}

impl Variable {
    /// A reference with the given depth.
    pub fn new(identifier: Identifier, depth: Option<usize>) -> (r: Self)
        ensures
            r == (Variable { identifier, depth }),
    {
        Self { identifier, depth }
    }

    /// A reference that is not resolved yet.
    pub fn default(identifier: Identifier) -> (r: Self)
        ensures
            r == (Variable { identifier, depth: None }),
    {
        Self { identifier, depth: None }
    }

    /// A copy of the name that is referred to.
    pub fn get_identifier(&self) -> (r: Identifier)
        ensures
            r == self.identifier,
    {
        self.identifier.clone()
    }

    /// The number of scopes to go out, where it is known.
    pub fn get_depth(&self) -> (r: Option<usize>)
        ensures
            r == self.depth,
    {
        self.depth
    }

    /// The same reference with the given number of scopes to skip.
    pub fn set_depth(&mut self, depth: usize)
        ensures
            *final(self) == (Variable { identifier: old(self).identifier, depth: Some(depth) }),
    {
        self.depth = Some(depth);
    }
}

/// An expression of the program.
#[derive(Debug)]
pub enum Expression {
    /// Condition, `?`, the value if true, the value if false.
    TernaryExpression(
        Box<ExpressionNode>,
        TernaryOperator,
        Box<ExpressionNode>,
        Box<ExpressionNode>,
    ),
    BinaryExpression(Box<ExpressionNode>, BinaryOperator, Box<ExpressionNode>),
    Grouping(Box<ExpressionNode>),
    /// The callee, the closing parenthesis, the arguments.
    CallExpression(Box<ExpressionNode>, Token, Vec<ExpressionNode>),
    /// The name of the field and the object that is read.
    GetExpression(Identifier, Box<ExpressionNode>),
    /// The object, the name of the field, the value to store.
    SetExpression(Box<ExpressionNode>, Identifier, Box<ExpressionNode>),
    FunctionExpression(Rc<FunctionExpression>),
    Literal(Literal),
    Unary(UnaryOperator, Box<ExpressionNode>),
    Variable(Variable),
    Assignment(Variable, Box<ExpressionNode>),
    Or(Box<ExpressionNode>, LogicalOperator, Box<ExpressionNode>),
    And(Box<ExpressionNode>, LogicalOperator, Box<ExpressionNode>),
}

} // verus!
