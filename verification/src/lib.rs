pub mod ast;
pub mod common;
pub mod runtime;
pub mod scanner;
pub mod session;

pub use ast::{
    BinaryOperator, CallOperator, Expression, ExpressionNode, Function, FunctionDeclaration,
    FunctionExpression, FunctionInfo, Identifier, LogicalOperator, OperatorTokenType, ParseError,
    Parser, Statement, TernaryOperator, UnaryOperator, Variable,
};
pub use common::{Error, Literal, Number};
pub use runtime::{
    Callable, Clock, Environment, FunctionKind, InstanceHandle, Interpreter, LoxCallable, LoxClass,
    LoxFunction, LoxInstance, Resolver, ResolverVariable,
};
pub use scanner::{Scanner, Token, TokenType};
pub use session::{prepare, run, Finished, Prepared, Run, DEFAULT_DEPTH};
