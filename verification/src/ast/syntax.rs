use super::expression::{
    Expression, ExpressionNode, FunctionDeclaration, FunctionExpression, Identifier, Variable,
};
use super::operators::{BinaryOperator, LogicalOperator, TernaryOperator, UnaryOperator};
use super::statement::Statement;
use crate::common::literal::Literal;
use crate::scanner::tokens::Token;
use std::rc::Rc;
use vstd::prelude::*;

verus! {

/// The tree of an expression, with its lists as sequences.
pub struct NodeView {
    pub line: usize,
    pub expr: ExpressionView,
}

/// The tree of a function: its name where it has one, its parameters, its body.
pub struct FunctionView {
    pub identifier: Option<Identifier>,
    pub parameters: Seq<Identifier>,
    pub body: Seq<StatementView>,
}

/// The variants of [`Expression`], with their lists as sequences.
pub enum ExpressionView {
    TernaryExpression(Box<NodeView>, TernaryOperator, Box<NodeView>, Box<NodeView>),
    BinaryExpression(Box<NodeView>, BinaryOperator, Box<NodeView>),
    Grouping(Box<NodeView>),
    CallExpression(Box<NodeView>, Token, Seq<NodeView>),
    GetExpression(Identifier, Box<NodeView>),
    SetExpression(Box<NodeView>, Identifier, Box<NodeView>),
    FunctionExpression(Box<FunctionView>),
    Literal(Literal),
    Unary(UnaryOperator, Box<NodeView>),
    Variable(Variable),
    Assignment(Variable, Box<NodeView>),
    Or(Box<NodeView>, LogicalOperator, Box<NodeView>),
    And(Box<NodeView>, LogicalOperator, Box<NodeView>),
}

/// The variants of [`Statement`], with their lists as sequences.
pub enum StatementView {
    PrintStatement(Box<NodeView>),
    IfStatement(Box<NodeView>, Box<StatementView>, Option<Box<StatementView>>),
    WhileStatement(Box<NodeView>, Box<StatementView>),
    ExpressionStatement(Box<NodeView>),
    ClassDeclaration(Identifier, Seq<FunctionView>),
    VariableDeclaration(Identifier, Option<Box<NodeView>>),
    FunctionDeclaration(Box<FunctionView>),
    BlockStatement(Seq<StatementView>),
    ReturnStatement(usize, Option<Box<NodeView>>),
}

/// The tree of an expression.
pub open spec fn node_view(node: ExpressionNode) -> NodeView
    decreases node,
{
    {
        NodeView {
            line: node.line,
            expr: match node.expr {
                Expression::TernaryExpression(c, o, a, b) => ExpressionView::TernaryExpression(
                    Box::new(node_view(*c)),
                    o,
                    Box::new(node_view(*a)),
                    Box::new(node_view(*b)),
                ),
                Expression::BinaryExpression(a, o, b) => ExpressionView::BinaryExpression(
                    Box::new(node_view(*a)),
                    o,
                    Box::new(node_view(*b)),
                ),
                Expression::Grouping(a) => ExpressionView::Grouping(Box::new(node_view(*a))),
                Expression::CallExpression(callee, paren, arguments) => ExpressionView::CallExpression(
                    Box::new(node_view(*callee)),
                    paren,
                    node_views(arguments@),
                ),
                Expression::GetExpression(name, object) => ExpressionView::GetExpression(
                    name,
                    Box::new(node_view(*object)),
                ),
                Expression::SetExpression(object, name, value) => ExpressionView::SetExpression(
                    Box::new(node_view(*object)),
                    name,
                    Box::new(node_view(*value)),
                ),
                Expression::FunctionExpression(function) => ExpressionView::FunctionExpression(
                    Box::new(
                        FunctionView {
                            identifier: None,
                            parameters: function.parameters@,
                            body: statement_views(function.body@),
                        },
                    ),
                ),
                Expression::Literal(literal) => ExpressionView::Literal(literal),
                Expression::Unary(o, a) => ExpressionView::Unary(o, Box::new(node_view(*a))),
                Expression::Variable(variable) => ExpressionView::Variable(variable),
                Expression::Assignment(variable, a) => ExpressionView::Assignment(
                    variable,
                    Box::new(node_view(*a)),
                ),
                Expression::Or(a, o, b) => ExpressionView::Or(
                    Box::new(node_view(*a)),
                    o,
                    Box::new(node_view(*b)),
                ),
                Expression::And(a, o, b) => ExpressionView::And(
                    Box::new(node_view(*a)),
                    o,
                    Box::new(node_view(*b)),
                ),
            },
        }
    }
}

/// The identifier behind an optional reference.
pub open spec fn owned(name: Option<&Identifier>) -> Option<Identifier> {
    match name {
        Some(identifier) => Some(*identifier),
        None => None,
    }
}

/// The views of a list of expressions.
pub open spec fn node_views(nodes: Seq<ExpressionNode>) -> Seq<NodeView>
    decreases nodes,
{
    Seq::new(
        nodes.len(),
        |i: int|
            if 0 <= i < nodes.len() {
                node_view(nodes[i])
            } else {
                arbitrary()
            },
    )
}

/// The views of a list of statements.
pub open spec fn statement_views(statements: Seq<Statement>) -> Seq<StatementView>
    decreases statements,
{
    Seq::new(
        statements.len(),
        |i: int|
            if 0 <= i < statements.len() {
                statement_view(statements[i])
            } else {
                arbitrary()
            },
    )
}

/// The tree of a function without a name.
pub open spec fn function_expression_view(function: FunctionExpression) -> FunctionView {
    FunctionView {
        identifier: None,
        parameters: function.parameters@,
        body: statement_views(function.body@),
    }
}

/// The tree of a named function.
pub open spec fn function_declaration_view(function: FunctionDeclaration) -> FunctionView {
    FunctionView {
        identifier: Some(function.identifier),
        parameters: function.parameters@,
        body: statement_views(function.body@),
    }
}

/// The views of the methods of a class.
pub open spec fn method_views(methods: Seq<Rc<FunctionDeclaration>>) -> Seq<FunctionView>
    decreases methods,
{
    Seq::new(
        methods.len(),
        |i: int|
            if 0 <= i < methods.len() {
                FunctionView {
                    identifier: Some(methods[i].identifier),
                    parameters: methods[i].parameters@,
                    body: statement_views(methods[i].body@),
                }
            } else {
                arbitrary()
            },
    )
}

/// The tree of a statement.
pub open spec fn statement_view(statement: Statement) -> StatementView
    decreases statement,
{
    {
        match statement {
            Statement::PrintStatement(a) => StatementView::PrintStatement(Box::new(node_view(*a))),
            Statement::IfStatement(c, a, b) => StatementView::IfStatement(
                Box::new(node_view(*c)),
                Box::new(statement_view(*a)),
                match b {
                    Some(branch) => Some(Box::new(statement_view(*branch))),
                    None => None,
                },
            ),
            Statement::WhileStatement(c, a) => StatementView::WhileStatement(
                Box::new(node_view(*c)),
                Box::new(statement_view(*a)),
            ),
            Statement::ExpressionStatement(a) => StatementView::ExpressionStatement(
                Box::new(node_view(*a)),
            ),
            Statement::ClassDeclaration(name, methods) => StatementView::ClassDeclaration(
                name,
                method_views(methods@),
            ),
            Statement::VariableDeclaration(name, a) => StatementView::VariableDeclaration(
                name,
                match a {
                    Some(initializer) => Some(Box::new(node_view(*initializer))),
                    None => None,
                },
            ),
            Statement::FunctionDeclaration(function) => StatementView::FunctionDeclaration(
                Box::new(
                    FunctionView {
                        identifier: Some(function.identifier),
                        parameters: function.parameters@,
                        body: statement_views(function.body@),
                    },
                ),
            ),
            Statement::BlockStatement(statements) => StatementView::BlockStatement(
                statement_views(statements@),
            ),
            Statement::ReturnStatement(line, a) => StatementView::ReturnStatement(
                line,
                match a {
                    Some(value) => Some(Box::new(node_view(*value))),
                    None => None,
                },
            ),
        }
    }
}

impl View for ExpressionNode {
    type V = NodeView;

    open spec fn view(&self) -> NodeView {
        node_view(*self)
    }
}

impl View for Statement {
    type V = StatementView;

    open spec fn view(&self) -> StatementView {
        statement_view(*self)
    }
}

impl View for FunctionDeclaration {
    type V = FunctionView;

    open spec fn view(&self) -> FunctionView {
        function_declaration_view(*self)
    }
}

impl View for FunctionExpression {
    type V = FunctionView;

    open spec fn view(&self) -> FunctionView {
        function_expression_view(*self)
    }
}

} // verus!
