pub mod display;
pub mod expression;
pub mod grammar;
pub mod operators;
pub mod parser;
pub mod statement;
pub mod syntax;

pub use expression::{
    Expression, ExpressionNode, Function, FunctionDeclaration, FunctionExpression, FunctionInfo,
    Identifier, Variable,
};
pub use operators::{
    BinaryOperator, CallOperator, LogicalOperator, OperatorTokenType, TernaryOperator,
    UnaryOperator,
};
pub use parser::{ParseError, Parser};
pub use statement::Statement;
