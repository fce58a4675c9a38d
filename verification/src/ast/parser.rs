use super::expression::{
    Expression, ExpressionNode, FunctionDeclaration, FunctionExpression, Identifier, Variable,
};
use super::grammar::{
    advance, argument_list, arguments, assign, assignment, binary, binary_operator, binary_rest,
    block, call, call_rest, class_declaration, closed_expression, condition, declaration, desugar,
    expect, expression, expression_statement, finish_call, for_condition, for_increment,
    for_initializer, for_statement, function, function_declaration, if_statement, logical,
    logical_rest, methods, parameter_list, parameters, primary, print_statement, program, resume,
    return_statement, statement, synchronize, ternary, unary, var_declaration, while_statement,
    Expectation, Parsed, MAX_ARGUMENTS,
};
use super::operators::{
    BinaryOperator, LogicalOperator, OperatorTokenType, TernaryOperator, UnaryOperator,
};
use super::statement::Statement;
use super::syntax::{
    method_views, node_views, owned, statement_views, FunctionView, NodeView, StatementView,
};
use crate::common::literal::Literal;
use crate::scanner::tokens::{Token, TokenType};
use std::rc::Rc;
use vstd::prelude::*;

pub use super::grammar::ParseError;

verus! {

/// The view of the result of parsing an expression.
pub open spec fn node_value(r: Result<ExpressionNode, ParseError>) -> Result<NodeView, ParseError> {
    match r {
        Ok(node) => Ok(node@),
        Err(error) => Err(error),
    }
}

/// The view of the result of parsing a list of expressions.
pub open spec fn nodes_value(r: Result<Vec<ExpressionNode>, ParseError>) -> Result<
    Seq<NodeView>,
    ParseError,
> {
    match r {
        Ok(nodes) => Ok(node_views(nodes@)),
        Err(error) => Err(error),
    }
}

/// The view of the result of parsing an expression that may be left out.
pub open spec fn optional_node_value(r: Result<Option<ExpressionNode>, ParseError>) -> Result<
    Option<NodeView>,
    ParseError,
> {
    match r {
        Ok(Some(node)) => Ok(Some(node@)),
        Ok(None) => Ok(None),
        Err(error) => Err(error),
    }
}

/// The view of the result of parsing a statement.
pub open spec fn statement_value(r: Result<Statement, ParseError>) -> Result<
    StatementView,
    ParseError,
> {
    match r {
        Ok(statement) => Ok(statement@),
        Err(error) => Err(error),
    }
}

/// The view of the result of parsing a statement that may be left out.
pub open spec fn optional_statement_value(r: Result<Option<Statement>, ParseError>) -> Result<
    Option<StatementView>,
    ParseError,
> {
    match r {
        Ok(Some(statement)) => Ok(Some(statement@)),
        Ok(None) => Ok(None),
        Err(error) => Err(error),
    }
}

/// The view of the result of parsing a list of statements.
pub open spec fn statements_value(r: Result<Vec<Statement>, ParseError>) -> Result<
    Seq<StatementView>,
    ParseError,
> {
    match r {
        Ok(statements) => Ok(statement_views(statements@)),
        Err(error) => Err(error),
    }
}

/// The view of the result of parsing a list of names.
pub open spec fn names_value(r: Result<Vec<Identifier>, ParseError>) -> Result<
    Seq<Identifier>,
    ParseError,
> {
    match r {
        Ok(names) => Ok(names@),
        Err(error) => Err(error),
    }
}

/// The view of the result of parsing the parameters and the body of a function.
pub open spec fn function_value(
    r: Result<(Vec<Identifier>, Vec<Statement>), ParseError>,
    name: Option<Identifier>,
) -> Result<FunctionView, ParseError> {
    match r {
        Ok((names, body)) => Ok(
            FunctionView { identifier: name, parameters: names@, body: statement_views(body@) },
        ),
        Err(error) => Err(error),
    }
}

/// The view of the result of parsing the methods of a class.
pub open spec fn methods_value(r: Result<Vec<Rc<FunctionDeclaration>>, ParseError>) -> Result<
    Seq<FunctionView>,
    ParseError,
> {
    match r {
        Ok(found) => Ok(method_views(found@)),
        Err(error) => Err(error),
    }
}

/// The first of `types` that a token of kind `typ` writes.
pub open spec fn first_operator<T: OperatorTokenType>(types: Seq<T>, typ: TokenType, from: int) -> Option<
    T,
>
    decreases types.len() - from,
{
    if 0 <= from < types.len() {
        if types[from].token_type_spec() == typ {
            Some(types[from])
        } else {
            first_operator(types, typ, from + 1)
        }
    } else {
        None
    }
}

/// The binary operator that a token writes on a precedence level.
pub fn binary_operator_of(level: u8, typ: TokenType) -> (r: Option<BinaryOperator>)
    ensures
        r == binary_operator(level as nat, typ),
{
    if level == 0 && typ == TokenType::BANGEQUAL {
        Some(BinaryOperator::BANGEQUAL)
    } else if level == 0 && typ == TokenType::EQUALEQUAL {
        Some(BinaryOperator::EQUALEQUAL)
    } else if level == 1 && typ == TokenType::GREATER {
        Some(BinaryOperator::GREATER)
    } else if level == 1 && typ == TokenType::GREATEREQUAL {
        Some(BinaryOperator::GREATEREQUAL)
    } else if level == 1 && typ == TokenType::LESS {
        Some(BinaryOperator::LESS)
    } else if level == 1 && typ == TokenType::LESSEQUAL {
        Some(BinaryOperator::LESSEQUAL)
    } else if level == 2 && typ == TokenType::MINUS {
        Some(BinaryOperator::MINUS)
    } else if level == 2 && typ == TokenType::PLUS {
        Some(BinaryOperator::PLUS)
    } else if level == 3 && typ == TokenType::SLASH {
        Some(BinaryOperator::SLASH)
    } else if level == 3 && typ == TokenType::STAR {
        Some(BinaryOperator::STAR)
    } else {
        None
    }
}

/// The tree of an assignment, or the error where the target cannot be
/// assigned to.
pub fn make_assignment(target: ExpressionNode, equals: Token, value: ExpressionNode) -> (r: Result<
    ExpressionNode,
    ParseError,
>)
    ensures
        node_value(r) == assign(target@, equals, value@),
{
    match target.expr {
        Expression::Variable(variable) => Ok(
            ExpressionNode::new(equals.line, Expression::Assignment(variable, Box::new(value))),
        ),
        Expression::GetExpression(name, object) => Ok(
            ExpressionNode::new(
                equals.line,
                Expression::SetExpression(object, name, Box::new(value)),
            ),
        ),
        _ => Err(ParseError::InvalidAssignmentTarget(equals)),
    }
}

/// The loop that a `for` statement stands for.
pub fn make_loop(
    initializer: Option<Statement>,
    condition: ExpressionNode,
    increment: Option<ExpressionNode>,
    body: Statement,
) -> (r: Statement)
    ensures
        r@ == desugar(
            match initializer {
                Some(first) => Some(first@),
                None => None,
            },
            condition@,
            match increment {
                Some(step) => Some(step@),
                None => None,
            },
            body@,
        ),
{
    let inner = match increment {
        Some(step) => {
            let ghost body_view = body@;
            let ghost step_view = step@;
            let mut both: Vec<Statement> = Vec::new();
            both.push(body);
            both.push(Statement::ExpressionStatement(Box::new(step)));
            assert(statement_views(both@) =~= seq![
                body_view,
                StatementView::ExpressionStatement(Box::new(step_view)),
            ]);
            Statement::BlockStatement(both)
        },
        None => body,
    };
    let ghost inner_view = inner@;
    let repeated = Statement::WhileStatement(Box::new(condition), Box::new(inner));
    match initializer {
        Some(first) => {
            let ghost first_view = first@;
            let ghost repeated_view = repeated@;
            let mut both: Vec<Statement> = Vec::new();
            both.push(first);
            both.push(repeated);
            assert(statement_views(both@) =~= seq![first_view, repeated_view]);
            Statement::BlockStatement(both)
        },
        None => repeated,
    }
}

/// Builds the tree of a program from its tokens.
#[derive(Debug)]
pub struct Parser {
    pub tokens: Vec<Token>,
    pub current_token: usize,
    pub errors: Vec<ParseError>,
}

impl Parser {
    /// The tokens end with the end token, and the current place is that of a token.
    pub open spec fn wf(&self) -> bool {
        &&& 0 < self.tokens@.len() <= usize::MAX
        &&& self.tokens@[self.tokens@.len() - 1].typ == TokenType::EOF
        &&& self.current_token < self.tokens@.len()
    }

    /// Whether the parser went from `before` to `self` as `parsed` says, with
    /// the result `value`.
    pub open spec fn gave<T>(
        &self,
        before: &Parser,
        parsed: Parsed<T>,
        value: Result<T, ParseError>,
    ) -> bool {
        &&& self.wf()
        &&& self.tokens == before.tokens
        &&& self.current_token == parsed.next
        &&& self.errors@ == parsed.errors
        &&& value == parsed.value
        &&& before.current_token <= self.current_token
    }

    /// A parser at the first of `tokens`.
    pub fn new(tokens: Vec<Token>) -> (r: Self)
        requires
            tokens@.len() > 0,
            tokens@[tokens@.len() - 1].typ == TokenType::EOF,
        ensures
            r.wf(),
            r.tokens == tokens,
            r.current_token == 0,
            r.errors@.len() == 0,
    {
        // The length of a vector is a `usize`.
        let _count = tokens.len();
        Self { tokens, current_token: 0, errors: Vec::new() }
    }

    /// The current token.
    pub fn peek(&self) -> (r: &Token)
        requires
            self.wf(),
        ensures
            *r == self.tokens@[self.current_token as int],
    {
        &self.tokens[self.current_token]
    }

    /// The kind of the token after the current one; that of the current one
    /// at the end.
    pub fn peek_next_type(&self) -> (r: TokenType)
        requires
            self.wf(),
        ensures
            r == if self.current_token + 1 < self.tokens@.len() {
                self.tokens@[self.current_token + 1].typ
            } else {
                self.tokens@[self.current_token as int].typ
            },
    {
        if self.current_token + 1 < self.tokens.len() {
            self.tokens[self.current_token + 1].typ
        } else {
            self.tokens[self.current_token].typ
        }
    }

    /// Whether the current token is the end token.
    pub fn is_at_end(&self) -> (r: bool)
        requires
            self.wf(),
        ensures
            r == (self.tokens@[self.current_token as int].typ == TokenType::EOF),
    {
        self.peek().typ == TokenType::EOF
    }

    /// Whether the current token is of kind `typ`.
    pub fn check_token_type(&self, typ: TokenType) -> (r: bool)
        requires
            self.wf(),
        ensures
            r == (self.tokens@[self.current_token as int].typ == typ),
    {
        self.peek().typ == typ
    }

    /// The token before the current one; the first token at the start.
    pub fn previous(&self) -> (r: Token)
        requires
            self.wf(),
        ensures
            r == if self.current_token == 0 {
                self.tokens@[0]
            } else {
                self.tokens@[self.current_token - 1]
            },
    {
        if self.current_token == 0 {
            self.tokens[0].clone()
        } else {
            self.tokens[self.current_token - 1].clone()
        }
    }

    /// Goes to the next token, unless the current one is the end token.
    pub fn advance(&mut self)
        requires
            old(self).wf(),
        ensures
            final(self).wf(),
            final(self).tokens == old(self).tokens,
            final(self).errors == old(self).errors,
            final(self).current_token == advance(old(self).tokens@, old(self).current_token as int),
    {
        if !self.is_at_end() {
            self.current_token = self.current_token + 1;
        }
    }

    /// Passes the current token if it is of kind `typ`.
    pub fn consume(&mut self, typ: TokenType, wanted: Expectation) -> (r: Result<Token, ParseError>)
        requires
            old(self).wf(),
        ensures
            final(self).wf(),
            final(self).tokens == old(self).tokens,
            final(self).errors == old(self).errors,
            match r {
                Ok(token) => expect(old(self).tokens@, old(self).current_token as int, typ, wanted)
                    == Ok::<int, ParseError>(final(self).current_token as int) && token == old(
                    self,
                ).tokens@[old(self).current_token as int],
                Err(error) => expect(old(self).tokens@, old(self).current_token as int, typ, wanted)
                    == Err::<int, ParseError>(error) && final(self).current_token == old(
                    self,
                ).current_token,
            },
            old(self).current_token <= final(self).current_token,
            r.is_ok() && typ != TokenType::EOF ==> final(self).current_token == old(
                self,
            ).current_token + 1,
    {
        if self.check_token_type(typ) {
            let token = self.peek().clone();
            self.advance();
            Ok(token)
        } else {
            Err(ParseError::MissingToken(self.peek().clone(), wanted))
        }
    }

    /// Passes the current token if one of `types` is written by it, and
    /// returns the first that is.
    pub fn match_operator_type<T: OperatorTokenType + Copy>(&mut self, types: Vec<T>) -> (r: Option<T>)
        requires
            old(self).wf(),
        ensures
            final(self).wf(),
            final(self).tokens == old(self).tokens,
            final(self).errors == old(self).errors,
            r == first_operator(types@, old(self).tokens@[old(self).current_token as int].typ, 0),
            final(self).current_token == if r.is_some() {
                advance(old(self).tokens@, old(self).current_token as int)
            } else {
                old(self).current_token as int
            },
    {
        let typ = self.peek().typ;
        let mut i: usize = 0;
        while i < types.len()
            invariant
                self.wf(),
                *self == *old(self),
                typ == self.tokens@[self.current_token as int].typ,
                i <= types.len(),
                first_operator(types@, typ, 0) == first_operator(types@, typ, i as int),
            decreases types.len() - i,
        {
            if types[i].token_type() == typ {
                let found = types[i];
                self.advance();
                return Some(found);
            }
            i += 1;
        }
        None
    }

    /// Goes on behind the next semicolon, or to the next token that can
    /// start a statement.
    #[verifier::loop_isolation(false)]
    pub fn synchronize(&mut self)
        requires
            old(self).wf(),
        ensures
            final(self).wf(),
            final(self).tokens == old(self).tokens,
            final(self).errors == old(self).errors,
            final(self).current_token == synchronize(
                old(self).tokens@,
                old(self).current_token as int,
            ),
            old(self).current_token <= final(self).current_token,
            old(self).tokens@[old(self).current_token as int].typ != TokenType::EOF ==> old(
                self,
            ).current_token < final(self).current_token,
    {
        self.advance();
        let ghost start = self.current_token as int;
        while !self.is_at_end()
            invariant
                self.wf(),
                self.tokens == old(self).tokens,
                self.errors == old(self).errors,
                start <= self.current_token,
                resume(self.tokens@, start) == resume(self.tokens@, self.current_token as int),
            decreases self.tokens@.len() - self.current_token,
        {
            if self.current_token > 0 && self.tokens[self.current_token - 1].typ
                == TokenType::SEMICOLON {
                return ;
            }
            let typ = self.peek().typ;
            if typ == TokenType::CLASS || typ == TokenType::FUN || typ == TokenType::VAR || typ
                == TokenType::FOR || typ == TokenType::IF || typ == TokenType::WHILE || typ
                == TokenType::PRINT || typ == TokenType::RETURN {
                return ;
            }
            self.advance();
        }
    }

    /// Parses a primary expression.
    #[verifier::spinoff_prover]
    pub fn primary(&mut self) -> (r: Result<ExpressionNode, ParseError>)
        requires
            old(self).wf(),
        ensures
            final(self).gave(
                old(self),
                primary(old(self).tokens@, old(self).current_token as int, old(self).errors@),
                node_value(r),
            ),
            r.is_ok() ==> old(self).current_token < final(self).current_token,
        decreases old(self).tokens@.len() - old(self).current_token, 4nat,
    {
        reveal(primary);
        let token = self.peek().clone();
        let typ = token.typ;
        if typ == TokenType::TRUE {
            self.advance();
            Ok(ExpressionNode::new(token.line, Expression::Literal(Literal::Boolean(true))))
        } else if typ == TokenType::FALSE {
            self.advance();
            Ok(ExpressionNode::new(token.line, Expression::Literal(Literal::Boolean(false))))
        } else if typ == TokenType::NIL {
            self.advance();
            Ok(ExpressionNode::new(token.line, Expression::Literal(Literal::Nil)))
        } else if typ == TokenType::NUMBER || typ == TokenType::STRING {
            match &token.literal {
                Some(literal) => {
                    self.advance();
                    Ok(ExpressionNode::new(token.line, Expression::Literal(literal.clone())))
                },
                None => Err(ParseError::MissingExpr(token)),
            }
        } else if typ == TokenType::IDENTIFIER {
            self.advance();
            let line = token.line;
            Ok(
                ExpressionNode::new(
                    line,
                    Expression::Variable(Variable::default(Identifier::token_to_id(token))),
                ),
            )
        } else if typ == TokenType::LEFTPAREN {
            self.advance();
            match self.closed_expression(TokenType::RIGHTPAREN, Expectation::ParenAfterExpression) {
                Ok(inner) => Ok(
                    ExpressionNode::new(token.line, Expression::Grouping(Box::new(inner))),
                ),
                Err(error) => Err(error),
            }
        } else if typ == TokenType::FUN {
            self.advance();
            match self.function(None) {
                Ok((names, body)) => Ok(
                    ExpressionNode::new(
                        token.line,
                        Expression::FunctionExpression(
                            Rc::new(FunctionExpression::new(names, body)),
                        ),
                    ),
                ),
                Err(error) => Err(error),
            }
        } else {
            Err(ParseError::MissingExpr(token))
        }
    }

    /// Parses the arguments of a call that are not yet in `given`.
    #[verifier::spinoff_prover]
    fn arguments(&mut self, given: Vec<ExpressionNode>) -> (r: Result<
        Vec<ExpressionNode>,
        ParseError,
    >)
        requires
            old(self).wf(),
        ensures
            final(self).gave(
                old(self),
                arguments(
                    old(self).tokens@,
                    old(self).current_token as int,
                    old(self).errors@,
                    node_views(given@),
                ),
                nodes_value(r),
            ),
            r.is_ok() ==> old(self).current_token < final(self).current_token,
        decreases old(self).tokens@.len() - old(self).current_token, 17nat,
    {
        reveal(arguments);
        if given.len() >= MAX_ARGUMENTS {
            return Err(ParseError::CallArgumentSize(self.peek().clone()));
        }
        match self.assignment() {
            Ok(item) => {
                let ghost before = node_views(given@);
                let mut given = given;
                given.push(item);
                assert(node_views(given@) =~= before.push(item@));
                if self.check_token_type(TokenType::COMMA) {
                    self.advance();
                    self.arguments(given)
                } else {
                    Ok(given)
                }
            },
            Err(error) => Err(error),
        }
    }

    /// Parses the arguments of a call and its closing parenthesis.
    #[verifier::spinoff_prover]
    fn argument_list(&mut self) -> (r: Result<(Vec<ExpressionNode>, Token), ParseError>)
        requires
            old(self).wf(),
        ensures
            final(self).gave(
                old(self),
                argument_list(old(self).tokens@, old(self).current_token as int, old(self).errors@),
                match r {
                    Ok((given, paren)) => Ok::<Seq<NodeView>, ParseError>(node_views(given@)),
                    Err(error) => Err::<Seq<NodeView>, ParseError>(error),
                },
            ),
            match r {
                Ok((given, paren)) => old(self).current_token < final(self).current_token && paren
                    == final(self).tokens@[final(self).current_token - 1],
                Err(_) => true,
            },
        decreases old(self).tokens@.len() - old(self).current_token, 18nat,
    {
        reveal(argument_list);
        let list = if self.check_token_type(TokenType::RIGHTPAREN) {
            let empty: Vec<ExpressionNode> = Vec::new();
            assert(node_views(empty@) =~= Seq::<NodeView>::empty());
            Ok(empty)
        } else {
            let empty: Vec<ExpressionNode> = Vec::new();
            assert(node_views(empty@) =~= Seq::<NodeView>::empty());
            self.arguments(empty)
        };
        match list {
            Ok(given) => match self.consume(
                TokenType::RIGHTPAREN,
                Expectation::ParenAfterArguments,
            ) {
                Ok(paren) => Ok((given, paren)),
                Err(error) => Err(error),
            },
            Err(error) => Err(error),
        }
    }

    /// Parses the arguments of a call and its closing parenthesis, and
    /// builds the tree of the call.
    #[verifier::spinoff_prover]
    pub fn finish_call(&mut self, callee: ExpressionNode) -> (r: Result<ExpressionNode, ParseError>)
        requires
            old(self).wf(),
        ensures
            final(self).gave(
                old(self),
                finish_call(
                    old(self).tokens@,
                    old(self).current_token as int,
                    old(self).errors@,
                    callee@,
                ),
                node_value(r),
            ),
            r.is_ok() ==> old(self).current_token < final(self).current_token,
        decreases old(self).tokens@.len() - old(self).current_token, 19nat,
    {
        reveal(finish_call);
        match self.argument_list() {
            Ok((given, paren)) => Ok(
                ExpressionNode::new(
                    paren.line,
                    Expression::CallExpression(Box::new(callee), paren, given),
                ),
            ),
            Err(error) => Err(error),
        }
    }

    /// Parses the calls and property reads that follow `callee`.
    #[verifier::spinoff_prover]
    fn call_rest(&mut self, callee: ExpressionNode) -> (r: Result<ExpressionNode, ParseError>)
        requires
            old(self).wf(),
        ensures
            final(self).gave(
                old(self),
                call_rest(
                    old(self).tokens@,
                    old(self).current_token as int,
                    old(self).errors@,
                    callee@,
                ),
                node_value(r),
            ),
        decreases old(self).tokens@.len() - old(self).current_token, 20nat,
    {
        reveal(call_rest);
        if self.check_token_type(TokenType::LEFTPAREN) {
            self.advance();
            match self.finish_call(callee) {
                Ok(called) => self.call_rest(called),
                Err(error) => Err(error),
            }
        } else if self.check_token_type(TokenType::DOT) {
            self.advance();
            match self.consume(TokenType::IDENTIFIER, Expectation::PropertyName) {
                Ok(name) => {
                    let line = name.line;
                    self.call_rest(
                        ExpressionNode::new(
                            line,
                            Expression::GetExpression(
                                Identifier::token_to_id(name),
                                Box::new(callee),
                            ),
                        ),
                    )
                },
                Err(error) => Err(error),
            }
        } else {
            Ok(callee)
        }
    }

    /// Parses a primary expression and what is called or read on it.
    #[verifier::spinoff_prover]
    pub fn call(&mut self) -> (r: Result<ExpressionNode, ParseError>)
        requires
            old(self).wf(),
        ensures
            final(self).gave(
                old(self),
                call(old(self).tokens@, old(self).current_token as int, old(self).errors@),
                node_value(r),
            ),
            r.is_ok() ==> old(self).current_token < final(self).current_token,
        decreases old(self).tokens@.len() - old(self).current_token, 5nat,
    {
        reveal(call);
        match self.primary() {
            Ok(callee) => self.call_rest(callee),
            Err(error) => Err(error),
        }
    }

    /// Parses a unary expression.
    #[verifier::spinoff_prover]
    pub fn unary(&mut self) -> (r: Result<ExpressionNode, ParseError>)
        requires
            old(self).wf(),
        ensures
            final(self).gave(
                old(self),
                unary(old(self).tokens@, old(self).current_token as int, old(self).errors@),
                node_value(r),
            ),
            r.is_ok() ==> old(self).current_token < final(self).current_token,
        decreases old(self).tokens@.len() - old(self).current_token, 6nat,
    {
        reveal(unary);
        let typ = self.peek().typ;
        if typ == TokenType::BANG || typ == TokenType::MINUS {
            let line = self.peek().line;
            self.advance();
            match self.unary() {
                Ok(operand) => {
                    let operator = if typ == TokenType::BANG {
                        UnaryOperator::BANG
                    } else {
                        UnaryOperator::MINUS
                    };
                    Ok(ExpressionNode::new(line, Expression::Unary(operator, Box::new(operand))))
                },
                Err(error) => Err(error),
            }
        } else {
            self.call()
        }
    }

    /// Parses the operators of one level and their right operands.
    #[verifier::spinoff_prover]
    fn binary_rest(&mut self, level: u8, left: ExpressionNode) -> (r: Result<
        ExpressionNode,
        ParseError,
    >)
        requires
            old(self).wf(),
        ensures
            final(self).gave(
                old(self),
                binary_rest(
                    old(self).tokens@,
                    old(self).current_token as int,
                    old(self).errors@,
                    level as nat,
                    left@,
                ),
                node_value(r),
            ),
        decreases old(self).tokens@.len() - old(self).current_token, 17nat,
    {
        reveal(binary_rest);
        match binary_operator_of(level, self.peek().typ) {
            Some(operator) => {
                let line = self.peek().line;
                self.advance();
                let higher: u8 = if level < 4 {
                    level + 1
                } else {
                    level
                };
                match self.binary(higher) {
                    Ok(right) => self.binary_rest(
                        level,
                        ExpressionNode::new(
                            line,
                            Expression::BinaryExpression(Box::new(left), operator, Box::new(right)),
                        ),
                    ),
                    Err(error) => Err(error),
                }
            },
            None => Ok(left),
        }
    }

    /// Parses a binary expression of the given level: 0 for equality, 1 for
    /// comparison, 2 for terms, 3 for factors.
    #[verifier::spinoff_prover]
    pub fn binary(&mut self, level: u8) -> (r: Result<ExpressionNode, ParseError>)
        requires
            old(self).wf(),
        ensures
            final(self).gave(
                old(self),
                binary(
                    old(self).tokens@,
                    old(self).current_token as int,
                    old(self).errors@,
                    level as nat,
                ),
                node_value(r),
            ),
            r.is_ok() ==> old(self).current_token < final(self).current_token,
        decreases old(self).tokens@.len() - old(self).current_token, if level >= 4 {
            7nat
        } else {
            (11 - level) as nat
        },
    {
        reveal(binary);
        if level >= 4 {
            self.unary()
        } else {
            match self.binary(level + 1) {
                Ok(left) => self.binary_rest(level, left),
                Err(error) => Err(error),
            }
        }
    }

    /// Parses an equality: comparisons with `==` and `!=` between them.
    pub fn equality(&mut self) -> (r: Result<ExpressionNode, ParseError>)
        requires
            old(self).wf(),
        ensures
            final(self).gave(
                old(self),
                binary(old(self).tokens@, old(self).current_token as int, old(self).errors@, 0),
                node_value(r),
            ),
    {
        self.binary(0)
    }

    /// Parses a comparison: terms with `<`, `<=`, `>` and `>=` between them.
    pub fn comparison(&mut self) -> (r: Result<ExpressionNode, ParseError>)
        requires
            old(self).wf(),
        ensures
            final(self).gave(
                old(self),
                binary(old(self).tokens@, old(self).current_token as int, old(self).errors@, 1),
                node_value(r),
            ),
    {
        self.binary(1)
    }

    /// Parses a term: factors with `+` and `-` between them.
    pub fn term(&mut self) -> (r: Result<ExpressionNode, ParseError>)
        requires
            old(self).wf(),
        ensures
            final(self).gave(
                old(self),
                binary(old(self).tokens@, old(self).current_token as int, old(self).errors@, 2),
                node_value(r),
            ),
    {
        self.binary(2)
    }

    /// Parses a factor: unary expressions with `*` and `/` between them.
    pub fn factor(&mut self) -> (r: Result<ExpressionNode, ParseError>)
        requires
            old(self).wf(),
        ensures
            final(self).gave(
                old(self),
                binary(old(self).tokens@, old(self).current_token as int, old(self).errors@, 3),
                node_value(r),
            ),
    {
        self.binary(3)
    }

    /// Parses a conditional expression.
    #[verifier::spinoff_prover]
    pub fn ternary(&mut self) -> (r: Result<ExpressionNode, ParseError>)
        requires
            old(self).wf(),
        ensures
            final(self).gave(
                old(self),
                ternary(old(self).tokens@, old(self).current_token as int, old(self).errors@),
                node_value(r),
            ),
            r.is_ok() ==> old(self).current_token < final(self).current_token,
        decreases old(self).tokens@.len() - old(self).current_token, 12nat,
    {
        reveal(ternary);
        match self.binary(0) {
            Ok(condition) => {
                if self.check_token_type(TokenType::QUESTIONMARK) {
                    let line = self.peek().line;
                    self.advance();
                    match self.closed_expression(
                        TokenType::COLON,
                        Expectation::ColonAfterThenBranch,
                    ) {
                        Ok(chosen) => match self.expression() {
                            Ok(other) => Ok(
                                ExpressionNode::new(
                                    line,
                                    Expression::TernaryExpression(
                                        Box::new(condition),
                                        TernaryOperator::QUESTIONMARK,
                                        Box::new(chosen),
                                        Box::new(other),
                                    ),
                                ),
                            ),
                            Err(error) => Err(error),
                        },
                        Err(error) => Err(error),
                    }
                } else {
                    Ok(condition)
                }
            },
            Err(error) => Err(error),
        }
    }

    /// Parses the `or`s or `and`s that follow `left`, and their right operands.
    #[verifier::spinoff_prover]
    fn logical_rest(&mut self, level: u8, left: ExpressionNode) -> (r: Result<
        ExpressionNode,
        ParseError,
    >)
        requires
            old(self).wf(),
        ensures
            final(self).gave(
                old(self),
                logical_rest(
                    old(self).tokens@,
                    old(self).current_token as int,
                    old(self).errors@,
                    level as nat,
                    left@,
                ),
                node_value(r),
            ),
        decreases old(self).tokens@.len() - old(self).current_token, 17nat,
    {
        reveal(logical_rest);
        let typ = self.peek().typ;
        let line = self.peek().line;
        if level == 0 && typ == TokenType::OR {
            self.advance();
            match self.logical(1) {
                Ok(right) => self.logical_rest(
                    level,
                    ExpressionNode::new(
                        line,
                        Expression::Or(Box::new(left), LogicalOperator::OR, Box::new(right)),
                    ),
                ),
                Err(error) => Err(error),
            }
        } else if level != 0 && typ == TokenType::AND {
            self.advance();
            match self.ternary() {
                Ok(right) => self.logical_rest(
                    level,
                    ExpressionNode::new(
                        line,
                        Expression::And(Box::new(left), LogicalOperator::AND, Box::new(right)),
                    ),
                ),
                Err(error) => Err(error),
            }
        } else {
            Ok(left)
        }
    }

    /// Parses an `or` expression (level 0) or an `and` expression (level 1).
    #[verifier::spinoff_prover]
    pub fn logical(&mut self, level: u8) -> (r: Result<ExpressionNode, ParseError>)
        requires
            old(self).wf(),
        ensures
            final(self).gave(
                old(self),
                logical(
                    old(self).tokens@,
                    old(self).current_token as int,
                    old(self).errors@,
                    level as nat,
                ),
                node_value(r),
            ),
            r.is_ok() ==> old(self).current_token < final(self).current_token,
        decreases old(self).tokens@.len() - old(self).current_token, if level == 0 {
            14nat
        } else {
            13nat
        },
    {
        reveal(logical);
        let first = if level == 0 {
            self.logical(1)
        } else {
            self.ternary()
        };
        match first {
            Ok(left) => self.logical_rest(level, left),
            Err(error) => Err(error),
        }
    }

    /// Parses an `or` expression.
    pub fn or(&mut self) -> (r: Result<ExpressionNode, ParseError>)
        requires
            old(self).wf(),
        ensures
            final(self).gave(
                old(self),
                logical(old(self).tokens@, old(self).current_token as int, old(self).errors@, 0),
                node_value(r),
            ),
    {
        self.logical(0)
    }

    /// Parses an `and` expression.
    pub fn and(&mut self) -> (r: Result<ExpressionNode, ParseError>)
        requires
            old(self).wf(),
        ensures
            final(self).gave(
                old(self),
                logical(old(self).tokens@, old(self).current_token as int, old(self).errors@, 1),
                node_value(r),
            ),
    {
        self.logical(1)
    }

    /// Parses an assignment expression.
    #[verifier::spinoff_prover]
    pub fn assignment(&mut self) -> (r: Result<ExpressionNode, ParseError>)
        requires
            old(self).wf(),
        ensures
            final(self).gave(
                old(self),
                assignment(old(self).tokens@, old(self).current_token as int, old(self).errors@),
                node_value(r),
            ),
            r.is_ok() ==> old(self).current_token < final(self).current_token,
        decreases old(self).tokens@.len() - old(self).current_token, 15nat,
    {
        reveal(assignment);
        match self.logical(0) {
            Ok(target) => {
                if self.check_token_type(TokenType::EQUAL) {
                    let equals = self.peek().clone();
                    self.advance();
                    match self.assignment() {
                        Ok(value) => make_assignment(target, equals, value),
                        Err(error) => Err(error),
                    }
                } else {
                    Ok(target)
                }
            },
            Err(error) => Err(error),
        }
    }

    /// Parses an expression: assignments with commas between them.
    #[verifier::spinoff_prover]
    pub fn expression(&mut self) -> (r: Result<ExpressionNode, ParseError>)
        requires
            old(self).wf(),
        ensures
            final(self).gave(
                old(self),
                expression(old(self).tokens@, old(self).current_token as int, old(self).errors@),
                node_value(r),
            ),
            r.is_ok() ==> old(self).current_token < final(self).current_token,
        decreases old(self).tokens@.len() - old(self).current_token, 16nat,
    {
        reveal(expression);
        match self.assignment() {
            Ok(left) => {
                if self.check_token_type(TokenType::COMMA) {
                    let line = self.peek().line;
                    self.advance();
                    match self.expression() {
                        Ok(right) => Ok(
                            ExpressionNode::new(
                                line,
                                Expression::BinaryExpression(
                                    Box::new(left),
                                    BinaryOperator::COMMA,
                                    Box::new(right),
                                ),
                            ),
                        ),
                        Err(error) => Err(error),
                    }
                } else {
                    Ok(left)
                }
            },
            Err(error) => Err(error),
        }
    }

    /// Parses an expression; `comma` is its lowest level.
    pub fn comma(&mut self) -> (r: Result<ExpressionNode, ParseError>)
        requires
            old(self).wf(),
        ensures
            final(self).gave(
                old(self),
                expression(old(self).tokens@, old(self).current_token as int, old(self).errors@),
                node_value(r),
            ),
    {
        self.expression()
    }

    /// Parses an expression and the token of kind `closing` behind it.
    #[verifier::spinoff_prover]
    fn closed_expression(&mut self, closing: TokenType, wanted: Expectation) -> (r: Result<
        ExpressionNode,
        ParseError,
    >)
        requires
            old(self).wf(),
        ensures
            final(self).gave(
                old(self),
                closed_expression(
                    old(self).tokens@,
                    old(self).current_token as int,
                    old(self).errors@,
                    closing,
                    wanted,
                ),
                node_value(r),
            ),
            r.is_ok() ==> old(self).current_token < final(self).current_token,
        decreases old(self).tokens@.len() - old(self).current_token, 17nat,
    {
        reveal(closed_expression);
        match self.expression() {
            Ok(value) => match self.consume(closing, wanted) {
                Ok(_) => Ok(value),
                Err(error) => Err(error),
            },
            Err(error) => Err(error),
        }
    }

    /// Parses the parameters of a function that are not yet in `names`.
    #[verifier::spinoff_prover]
    fn parameters(&mut self, names: Vec<Identifier>) -> (r: Result<Vec<Identifier>, ParseError>)
        requires
            old(self).wf(),
        ensures
            final(self).gave(
                old(self),
                parameters(
                    old(self).tokens@,
                    old(self).current_token as int,
                    old(self).errors@,
                    names@,
                ),
                names_value(r),
            ),
        decreases old(self).tokens@.len() - old(self).current_token, 17nat,
    {
        reveal(parameters);
        if names.len() >= MAX_ARGUMENTS {
            self.errors.push(ParseError::CallArgumentSize(self.peek().clone()));
        }
        match self.consume(TokenType::IDENTIFIER, Expectation::ParameterName) {
            Ok(name) => {
                let mut names = names;
                names.push(Identifier::token_to_id(name));
                if self.check_token_type(TokenType::COMMA) {
                    self.advance();
                    self.parameters(names)
                } else {
                    Ok(names)
                }
            },
            Err(error) => Err(error),
        }
    }

    /// Parses the parameters of a function, the closing parenthesis, and the
    /// brace that opens the body.
    #[verifier::spinoff_prover]
    fn parameter_list(&mut self) -> (r: Result<Vec<Identifier>, ParseError>)
        requires
            old(self).wf(),
        ensures
            final(self).gave(
                old(self),
                parameter_list(old(self).tokens@, old(self).current_token as int, old(self).errors@),
                names_value(r),
            ),
            r.is_ok() ==> old(self).current_token < final(self).current_token,
        decreases old(self).tokens@.len() - old(self).current_token, 18nat,
    {
        reveal(parameter_list);
        let list = if self.check_token_type(TokenType::RIGHTPAREN) {
            Ok(Vec::new())
        } else {
            self.parameters(Vec::new())
        };
        match list {
            Ok(names) => match self.consume(
                TokenType::RIGHTPAREN,
                Expectation::ParenAfterParameters,
            ) {
                Ok(_) => match self.consume(
                    TokenType::LEFTBRACE,
                    Expectation::BraceBeforeFunctionBody,
                ) {
                    Ok(_) => Ok(names),
                    Err(error) => Err(error),
                },
                Err(error) => Err(error),
            },
            Err(error) => Err(error),
        }
    }

    /// Parses the parameters and the body of the function named `name`.
    #[verifier::spinoff_prover]
    pub fn function(&mut self, name: Option<&Identifier>) -> (r: Result<
        (Vec<Identifier>, Vec<Statement>),
        ParseError,
    >)
        requires
            old(self).wf(),
        ensures
            final(self).gave(
                old(self),
                function(
                    old(self).tokens@,
                    old(self).current_token as int,
                    old(self).errors@,
                    owned(name),
                ),
                function_value(r, owned(name)),
            ),
            r.is_ok() ==> old(self).current_token < final(self).current_token,
        decreases old(self).tokens@.len() - old(self).current_token, 19nat,
    {
        reveal(function);
        let wanted = if name.is_some() {
            Expectation::ParenAfterFunctionName
        } else {
            Expectation::ParenAfterFun
        };
        match self.consume(TokenType::LEFTPAREN, wanted) {
            Ok(_) => match self.parameter_list() {
                Ok(names) => match self.block() {
                    Ok(body) => Ok((names, body)),
                    Err(error) => Err(error),
                },
                Err(error) => Err(error),
            },
            Err(error) => Err(error),
        }
    }

    /// Parses the declarations of a block and its closing brace.
    #[verifier::loop_isolation(false)]
    #[verifier::spinoff_prover]
    pub fn block(&mut self) -> (r: Result<Vec<Statement>, ParseError>)
        requires
            old(self).wf(),
        ensures
            final(self).gave(
                old(self),
                block(
                    old(self).tokens@,
                    old(self).current_token as int,
                    old(self).errors@,
                    Seq::empty(),
                ),
                statements_value(r),
            ),
            r.is_ok() ==> old(self).current_token < final(self).current_token,
        decreases old(self).tokens@.len() - old(self).current_token, 23nat,
    {
        reveal(block);
        let mut held: Vec<Statement> = Vec::new();
        assert(statement_views(held@) =~= Seq::<StatementView>::empty());
        loop
            invariant
                self.wf(),
                self.tokens == old(self).tokens,
                old(self).current_token <= self.current_token,
                block(
                    old(self).tokens@,
                    old(self).current_token as int,
                    old(self).errors@,
                    Seq::empty(),
                ) == block(
                    self.tokens@,
                    self.current_token as int,
                    self.errors@,
                    statement_views(held@),
                ),
            decreases self.tokens@.len() - self.current_token,
        {
            reveal(block);
            let typ = self.peek().typ;
            if typ == TokenType::RIGHTBRACE || typ == TokenType::EOF {
                break ;
            }
            let ghost before = statement_views(held@);
            match self.declaration() {
                Ok(statement) => {
                    held.push(statement);
                    assert(statement_views(held@) =~= before.push(statement@));
                },
                Err(error) => {
                    self.errors.push(error);
                },
            }
        }
        match self.consume(TokenType::RIGHTBRACE, Expectation::BraceAfterBlock) {
            Ok(_) => Ok(held),
            Err(error) => Err(error),
        }
    }

    /// Parses a variable declaration; `var` has been passed.
    #[verifier::spinoff_prover]
    pub fn var_declaration(&mut self) -> (r: Result<Statement, ParseError>)
        requires
            old(self).wf(),
        ensures
            final(self).gave(
                old(self),
                var_declaration(
                    old(self).tokens@,
                    old(self).current_token as int,
                    old(self).errors@,
                ),
                statement_value(r),
            ),
            r.is_ok() ==> old(self).current_token < final(self).current_token,
        decreases old(self).tokens@.len() - old(self).current_token, 18nat,
    {
        reveal(var_declaration);
        if !self.check_token_type(TokenType::IDENTIFIER) {
            return Err(ParseError::MissingVariableName(self.peek().clone()));
        }
        let name = Identifier::token_to_id(self.peek().clone());
        self.advance();
        if self.check_token_type(TokenType::EQUAL) {
            self.advance();
            match self.closed_expression(
                TokenType::SEMICOLON,
                Expectation::SemicolonAfterVariable,
            ) {
                Ok(value) => Ok(Statement::VariableDeclaration(name, Some(Box::new(value)))),
                Err(error) => Err(error),
            }
        } else {
            match self.consume(TokenType::SEMICOLON, Expectation::SemicolonAfterVariable) {
                Ok(_) => Ok(Statement::VariableDeclaration(name, None)),
                Err(error) => Err(error),
            }
        }
    }

    /// Parses the methods of a class.
    #[verifier::loop_isolation(false)]
    #[verifier::spinoff_prover]
    fn methods(&mut self) -> (r: Result<Vec<Rc<FunctionDeclaration>>, ParseError>)
        requires
            old(self).wf(),
        ensures
            final(self).gave(
                old(self),
                methods(
                    old(self).tokens@,
                    old(self).current_token as int,
                    old(self).errors@,
                    Seq::empty(),
                ),
                methods_value(r),
            ),
        decreases old(self).tokens@.len() - old(self).current_token, 20nat,
    {
        reveal(methods);
        let mut held: Vec<Rc<FunctionDeclaration>> = Vec::new();
        assert(method_views(held@) =~= Seq::<FunctionView>::empty());
        loop
            invariant
                self.wf(),
                self.tokens == old(self).tokens,
                old(self).current_token <= self.current_token,
                methods(
                    old(self).tokens@,
                    old(self).current_token as int,
                    old(self).errors@,
                    Seq::empty(),
                ) == methods(
                    self.tokens@,
                    self.current_token as int,
                    self.errors@,
                    method_views(held@),
                ),
            decreases self.tokens@.len() - self.current_token,
        {
            reveal(methods);
            let typ = self.peek().typ;
            if typ == TokenType::RIGHTBRACE || typ == TokenType::EOF {
                return Ok(held);
            }
            match self.consume(TokenType::IDENTIFIER, Expectation::MethodName) {
                Ok(token) => {
                    let name = Identifier::token_to_id(token);
                    match self.function(Some(&name)) {
                        Ok((names, body)) => {
                            let ghost before = method_views(held@);
                            let method = Rc::new(FunctionDeclaration::new(name, names, body));
                            held.push(method);
                            assert(method_views(held@) =~= before.push(
                                FunctionView {
                                    identifier: Some(name),
                                    parameters: names@,
                                    body: statement_views(body@),
                                },
                            ));
                        },
                        Err(error) => {
                            return Err(error);
                        },
                    }
                },
                Err(error) => {
                    return Err(error);
                },
            }
        }
    }

    /// Parses a class declaration; `class` has been passed.
    #[verifier::spinoff_prover]
    pub fn class_declaration(&mut self) -> (r: Result<Statement, ParseError>)
        requires
            old(self).wf(),
        ensures
            final(self).gave(
                old(self),
                class_declaration(
                    old(self).tokens@,
                    old(self).current_token as int,
                    old(self).errors@,
                ),
                statement_value(r),
            ),
            r.is_ok() ==> old(self).current_token < final(self).current_token,
        decreases old(self).tokens@.len() - old(self).current_token, 21nat,
    {
        reveal(class_declaration);
        match self.consume(TokenType::IDENTIFIER, Expectation::ClassName) {
            Ok(token) => match self.consume(
                TokenType::LEFTBRACE,
                Expectation::BraceBeforeClassBody,
            ) {
                Ok(_) => match self.methods() {
                    Ok(found) => match self.consume(
                        TokenType::RIGHTBRACE,
                        Expectation::BraceAfterClassBody,
                    ) {
                        Ok(_) => Ok(
                            Statement::ClassDeclaration(
                                Identifier::token_to_id(token),
                                Rc::new(found),
                            ),
                        ),
                        Err(error) => Err(error),
                    },
                    Err(error) => Err(error),
                },
                Err(error) => Err(error),
            },
            Err(error) => Err(error),
        }
    }

    /// Parses a condition in parentheses.
    #[verifier::spinoff_prover]
    fn condition(&mut self, before: Expectation, after: Expectation) -> (r: Result<
        ExpressionNode,
        ParseError,
    >)
        requires
            old(self).wf(),
        ensures
            final(self).gave(
                old(self),
                condition(
                    old(self).tokens@,
                    old(self).current_token as int,
                    old(self).errors@,
                    before,
                    after,
                ),
                node_value(r),
            ),
            r.is_ok() ==> old(self).current_token < final(self).current_token,
        decreases old(self).tokens@.len() - old(self).current_token, 18nat,
    {
        reveal(condition);
        match self.consume(TokenType::LEFTPAREN, before) {
            Ok(_) => self.closed_expression(TokenType::RIGHTPAREN, after),
            Err(error) => Err(error),
        }
    }

    /// Parses an `if` statement; `if` has been passed.
    #[verifier::spinoff_prover]
    pub fn if_statement(&mut self) -> (r: Result<Statement, ParseError>)
        requires
            old(self).wf(),
        ensures
            final(self).gave(
                old(self),
                if_statement(old(self).tokens@, old(self).current_token as int, old(self).errors@),
                statement_value(r),
            ),
            r.is_ok() ==> old(self).current_token < final(self).current_token,
        decreases old(self).tokens@.len() - old(self).current_token, 20nat,
    {
        reveal(if_statement);
        match self.condition(Expectation::ParenAfterIf, Expectation::ParenAfterIfCondition) {
            Ok(c) => match self.statement() {
                Ok(then_branch) => {
                    if self.check_token_type(TokenType::ELSE) {
                        self.advance();
                        match self.statement() {
                            Ok(else_branch) => Ok(
                                Statement::IfStatement(
                                    Box::new(c),
                                    Box::new(then_branch),
                                    Some(Box::new(else_branch)),
                                ),
                            ),
                            Err(error) => Err(error),
                        }
                    } else {
                        Ok(Statement::IfStatement(Box::new(c), Box::new(then_branch), None))
                    }
                },
                Err(error) => Err(error),
            },
            Err(error) => Err(error),
        }
    }

    /// Parses a `while` statement; `while` has been passed.
    #[verifier::spinoff_prover]
    pub fn while_statement(&mut self) -> (r: Result<Statement, ParseError>)
        requires
            old(self).wf(),
        ensures
            final(self).gave(
                old(self),
                while_statement(
                    old(self).tokens@,
                    old(self).current_token as int,
                    old(self).errors@,
                ),
                statement_value(r),
            ),
            r.is_ok() ==> old(self).current_token < final(self).current_token,
        decreases old(self).tokens@.len() - old(self).current_token, 20nat,
    {
        reveal(while_statement);
        match self.condition(Expectation::ParenAfterWhile, Expectation::ParenAfterWhileCondition) {
            Ok(c) => match self.statement() {
                Ok(body) => Ok(Statement::WhileStatement(Box::new(c), Box::new(body))),
                Err(error) => Err(error),
            },
            Err(error) => Err(error),
        }
    }

    #[verifier::spinoff_prover]
    fn for_initializer(&mut self) -> (r: Result<Option<Statement>, ParseError>)
        requires
            old(self).wf(),
        ensures
            final(self).gave(
                old(self),
                for_initializer(
                    old(self).tokens@,
                    old(self).current_token as int,
                    old(self).errors@,
                ),
                optional_statement_value(r),
            ),
            r.is_ok() ==> old(self).current_token < final(self).current_token,
        decreases old(self).tokens@.len() - old(self).current_token, 19nat,
    {
        reveal(for_initializer);
        if self.check_token_type(TokenType::SEMICOLON) {
            self.advance();
            Ok(None)
        } else {
            let first = if self.check_token_type(TokenType::VAR) {
                self.advance();
                self.var_declaration()
            } else {
                self.expression_statement()
            };
            match first {
                Ok(statement) => Ok(Some(statement)),
                Err(error) => Err(error),
            }
        }
    }

    #[verifier::spinoff_prover]
    fn for_condition(&mut self) -> (r: Result<ExpressionNode, ParseError>)
        requires
            old(self).wf(),
        ensures
            final(self).gave(
                old(self),
                for_condition(old(self).tokens@, old(self).current_token as int, old(self).errors@),
                node_value(r),
            ),
            r.is_ok() ==> old(self).current_token < final(self).current_token,
        decreases old(self).tokens@.len() - old(self).current_token, 19nat,
    {
        reveal(for_condition);
        if self.check_token_type(TokenType::SEMICOLON) {
            let line = self.peek().line;
            self.advance();
            Ok(ExpressionNode::new(line, Expression::Literal(Literal::Boolean(true))))
        } else {
            self.closed_expression(TokenType::SEMICOLON, Expectation::SemicolonAfterLoopCondition)
        }
    }

    #[verifier::spinoff_prover]
    fn for_increment(&mut self) -> (r: Result<Option<ExpressionNode>, ParseError>)
        requires
            old(self).wf(),
        ensures
            final(self).gave(
                old(self),
                for_increment(old(self).tokens@, old(self).current_token as int, old(self).errors@),
                optional_node_value(r),
            ),
            r.is_ok() ==> old(self).current_token < final(self).current_token,
        decreases old(self).tokens@.len() - old(self).current_token, 19nat,
    {
        reveal(for_increment);
        if self.check_token_type(TokenType::RIGHTPAREN) {
            self.advance();
            Ok(None)
        } else {
            match self.closed_expression(TokenType::RIGHTPAREN, Expectation::ParenAfterForClauses) {
                Ok(step) => Ok(Some(step)),
                Err(error) => Err(error),
            }
        }
    }

    /// Parses a `for` statement as the `while` loop that it stands for;
    /// `for` has been passed.
    #[verifier::spinoff_prover]
    pub fn for_statement(&mut self) -> (r: Result<Statement, ParseError>)
        requires
            old(self).wf(),
        ensures
            final(self).gave(
                old(self),
                for_statement(old(self).tokens@, old(self).current_token as int, old(self).errors@),
                statement_value(r),
            ),
            r.is_ok() ==> old(self).current_token < final(self).current_token,
        decreases old(self).tokens@.len() - old(self).current_token, 20nat,
    {
        reveal(for_statement);
        match self.consume(TokenType::LEFTPAREN, Expectation::ParenAfterFor) {
            Ok(_) => match self.for_initializer() {
                Ok(initializer) => match self.for_condition() {
                    Ok(c) => match self.for_increment() {
                        Ok(increment) => match self.statement() {
                            Ok(body) => Ok(make_loop(initializer, c, increment, body)),
                            Err(error) => Err(error),
                        },
                        Err(error) => Err(error),
                    },
                    Err(error) => Err(error),
                },
                Err(error) => Err(error),
            },
            Err(error) => Err(error),
        }
    }

    /// Parses an expression statement.
    #[verifier::spinoff_prover]
    pub fn expression_statement(&mut self) -> (r: Result<Statement, ParseError>)
        requires
            old(self).wf(),
        ensures
            final(self).gave(
                old(self),
                expression_statement(
                    old(self).tokens@,
                    old(self).current_token as int,
                    old(self).errors@,
                ),
                statement_value(r),
            ),
            r.is_ok() ==> old(self).current_token < final(self).current_token,
        decreases old(self).tokens@.len() - old(self).current_token, 18nat,
    {
        reveal(expression_statement);
        match self.closed_expression(TokenType::SEMICOLON, Expectation::SemicolonAfterExpression) {
            Ok(value) => Ok(Statement::ExpressionStatement(Box::new(value))),
            Err(error) => Err(error),
        }
    }

    /// Parses a `print` statement; `print` has been passed.
    #[verifier::spinoff_prover]
    pub fn print_statement(&mut self) -> (r: Result<Statement, ParseError>)
        requires
            old(self).wf(),
        ensures
            final(self).gave(
                old(self),
                print_statement(
                    old(self).tokens@,
                    old(self).current_token as int,
                    old(self).errors@,
                ),
                statement_value(r),
            ),
            r.is_ok() ==> old(self).current_token < final(self).current_token,
        decreases old(self).tokens@.len() - old(self).current_token, 18nat,
    {
        reveal(print_statement);
        match self.closed_expression(TokenType::SEMICOLON, Expectation::SemicolonAfterValue) {
            Ok(value) => Ok(Statement::PrintStatement(Box::new(value))),
            Err(error) => Err(error),
        }
    }

    /// Parses a `return` statement; the `return` on line `line` has been passed.
    #[verifier::spinoff_prover]
    pub fn return_statement(&mut self, line: usize) -> (r: Result<Statement, ParseError>)
        requires
            old(self).wf(),
        ensures
            final(self).gave(
                old(self),
                return_statement(
                    old(self).tokens@,
                    old(self).current_token as int,
                    old(self).errors@,
                    line,
                ),
                statement_value(r),
            ),
            r.is_ok() ==> old(self).current_token < final(self).current_token,
        decreases old(self).tokens@.len() - old(self).current_token, 18nat,
    {
        reveal(return_statement);
        if self.check_token_type(TokenType::SEMICOLON) {
            self.advance();
            Ok(Statement::ReturnStatement(line, None))
        } else {
            match self.closed_expression(TokenType::SEMICOLON, Expectation::SemicolonAfterReturn) {
                Ok(value) => Ok(Statement::ReturnStatement(line, Some(Box::new(value)))),
                Err(error) => Err(error),
            }
        }
    }

    /// Parses a statement.
    #[verifier::spinoff_prover]
    pub fn statement(&mut self) -> (r: Result<Statement, ParseError>)
        requires
            old(self).wf(),
        ensures
            final(self).gave(
                old(self),
                statement(old(self).tokens@, old(self).current_token as int, old(self).errors@),
                statement_value(r),
            ),
            r.is_ok() ==> old(self).current_token < final(self).current_token,
        decreases old(self).tokens@.len() - old(self).current_token, 21nat,
    {
        reveal(statement);
        let typ = self.peek().typ;
        if typ == TokenType::IF {
            self.advance();
            self.if_statement()
        } else if typ == TokenType::PRINT {
            self.advance();
            self.print_statement()
        } else if typ == TokenType::WHILE {
            self.advance();
            self.while_statement()
        } else if typ == TokenType::FOR {
            self.advance();
            self.for_statement()
        } else if typ == TokenType::RETURN {
            let line = self.peek().line;
            self.advance();
            self.return_statement(line)
        } else if typ == TokenType::LEFTBRACE {
            self.advance();
            match self.block() {
                Ok(statements) => Ok(Statement::BlockStatement(statements)),
                Err(error) => Err(error),
            }
        } else {
            self.expression_statement()
        }
    }

    /// Parses a function declaration; `fun` has been passed.
    #[verifier::spinoff_prover]
    pub fn fun_declaration(&mut self) -> (r: Result<Statement, ParseError>)
        requires
            old(self).wf(),
        ensures
            final(self).gave(
                old(self),
                function_declaration(
                    old(self).tokens@,
                    old(self).current_token as int,
                    old(self).errors@,
                ),
                statement_value(r),
            ),
            r.is_ok() ==> old(self).current_token < final(self).current_token,
        decreases old(self).tokens@.len() - old(self).current_token, 21nat,
    {
        reveal(function_declaration);
        match self.consume(TokenType::IDENTIFIER, Expectation::FunctionName) {
            Ok(token) => {
                let name = Identifier::token_to_id(token);
                match self.function(Some(&name)) {
                    Ok((names, body)) => Ok(
                        Statement::FunctionDeclaration(
                            Rc::new(FunctionDeclaration::new(name, names, body)),
                        ),
                    ),
                    Err(error) => Err(error),
                }
            },
            Err(error) => Err(error),
        }
    }

    /// Parses a declaration; after an error, goes on where the next
    /// declaration may start.
    #[verifier::spinoff_prover]
    pub fn declaration(&mut self) -> (r: Result<Statement, ParseError>)
        requires
            old(self).wf(),
        ensures
            final(self).gave(
                old(self),
                declaration(old(self).tokens@, old(self).current_token as int, old(self).errors@),
                statement_value(r),
            ),
            old(self).tokens@[old(self).current_token as int].typ != TokenType::EOF ==> old(
                self,
            ).current_token < final(self).current_token,
        decreases old(self).tokens@.len() - old(self).current_token, 22nat,
    {
        reveal(declaration);
        let typ = self.peek().typ;
        let parsed = if typ == TokenType::VAR {
            self.advance();
            self.var_declaration()
        } else if typ == TokenType::CLASS {
            self.advance();
            self.class_declaration()
        } else if typ == TokenType::FUN && self.peek_next_type() == TokenType::IDENTIFIER {
            self.advance();
            self.fun_declaration()
        } else {
            self.statement()
        };
        match parsed {
            Ok(statement) => Ok(statement),
            Err(error) => {
                self.synchronize();
                Err(error)
            },
        }
    }

    /// Parses the rest of the tokens as a program: the declarations that
    /// could be parsed, in order. The others are reported in `errors`.
    #[verifier::loop_isolation(false)]
    #[verifier::spinoff_prover]
    pub fn parse(&mut self) -> (r: Vec<Statement>)
        requires
            old(self).wf(),
        ensures
            final(self).wf(),
            final(self).tokens == old(self).tokens,
            final(self).tokens@[final(self).current_token as int].typ == TokenType::EOF,
            statement_views(r@) == program(
                old(self).tokens@,
                old(self).current_token as int,
                old(self).errors@,
                Seq::empty(),
            ).statements,
            final(self).errors@ == program(
                old(self).tokens@,
                old(self).current_token as int,
                old(self).errors@,
                Seq::empty(),
            ).errors,
    {
        reveal(program);
        let mut statements: Vec<Statement> = Vec::new();
        assert(statement_views(statements@) =~= Seq::<StatementView>::empty());
        while !self.is_at_end()
            invariant
                self.wf(),
                self.tokens == old(self).tokens,
                program(
                    old(self).tokens@,
                    old(self).current_token as int,
                    old(self).errors@,
                    Seq::empty(),
                ) == program(
                    self.tokens@,
                    self.current_token as int,
                    self.errors@,
                    statement_views(statements@),
                ),
            decreases self.tokens@.len() - self.current_token,
        {
            reveal(program);
            let ghost before = statement_views(statements@);
            match self.declaration() {
                Ok(statement) => {
                    statements.push(statement);
                    assert(statement_views(statements@) =~= before.push(statement@));
                },
                Err(error) => {
                    self.errors.push(error);
                },
            }
        }
        statements
    }
}

} // verus!
