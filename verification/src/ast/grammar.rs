use super::expression::{Identifier, Variable};
use super::operators::{BinaryOperator, LogicalOperator, TernaryOperator, UnaryOperator};
use super::syntax::{ExpressionView, FunctionView, NodeView, StatementView};
use crate::common::literal::Literal;
use crate::scanner::tokens::{Token, TokenType};
use vstd::prelude::*;

verus! {

/// The most arguments that a call, and the most parameters that a function,
/// may have.
pub const MAX_ARGUMENTS: usize = 255;

/// What the parser was looking for when it met another token.
#[derive(Debug, Clone, Copy, PartialEq, Eq, Structural)]
pub enum Expectation {
    SemicolonAfterVariable,
    SemicolonAfterValue,
    SemicolonAfterExpression,
    SemicolonAfterReturn,
    SemicolonAfterLoopCondition,
    FunctionName,
    ParenAfterFunctionName,
    ParenAfterFun,
    ParenAfterParameters,
    BraceBeforeFunctionBody,
    ParameterName,
    ClassName,
    BraceBeforeClassBody,
    BraceAfterClassBody,
    MethodName,
    ParenAfterIf,
    ParenAfterIfCondition,
    ParenAfterWhile,
    ParenAfterWhileCondition,
    ParenAfterFor,
    ParenAfterForClauses,
    BraceAfterBlock,
    ColonAfterThenBranch,
    ParenAfterExpression,
    ParenAfterArguments,
    PropertyName,
}

/// Why a run of tokens is not a declaration.
#[derive(Debug)]
pub enum ParseError {
    /// An expression was expected at the token.
    MissingExpr(Token),
    /// The name of a variable was expected at the token.
    MissingVariableName(Token),
    /// The call that the token closes, or the parameter list that the token
    /// stands in, is too long.
    CallArgumentSize(Token),
    /// The `=` stands behind something that cannot be assigned to.
    InvalidAssignmentTarget(Token),
    /// Another token was expected at the token.
    MissingToken(Token, Expectation),
    /// The tokens do not end with the end token.
    OutOfTokens,
}

/// What a parsing function gives: the tree or the error that stopped it, the
/// place of the next token, and the errors reported so far that did not stop it.
pub struct Parsed<T> {
    pub value: Result<T, ParseError>,
    pub next: int,
    pub errors: Seq<ParseError>,
}

/// A result with a tree.
pub open spec fn done<T>(value: T, next: int, errors: Seq<ParseError>) -> Parsed<T> {
    Parsed { value: Ok(value), next, errors }
}

/// A result with the error that stopped the parser.
pub open spec fn failed<T>(error: ParseError, next: int, errors: Seq<ParseError>) -> Parsed<T> {
    Parsed { value: Err(error), next, errors }
}

/// The result for a place outside the tokens.
pub open spec fn lost<T>(pos: int, errors: Seq<ParseError>) -> Parsed<T> {
    failed(ParseError::OutOfTokens, pos, errors)
}

/// Whether `pos` is the place of a token.
pub open spec fn inside(tokens: Seq<Token>, pos: int) -> bool {
    0 <= pos < tokens.len()
}

/// Whether `next` is the place of a token behind `pos`.
pub open spec fn onward(tokens: Seq<Token>, pos: int, next: int) -> bool {
    pos < next < tokens.len()
}

/// The place after the token at `pos`; the end token is never passed.
pub open spec fn advance(tokens: Seq<Token>, pos: int) -> int {
    if tokens[pos].typ == TokenType::EOF {
        pos
    } else {
        pos + 1
    }
}

/// The place after the token at `pos` if it is of kind `typ`, and the error
/// if it is not.
pub open spec fn expect(tokens: Seq<Token>, pos: int, typ: TokenType, wanted: Expectation) -> Result<
    int,
    ParseError,
> {
    if !inside(tokens, pos) {
        Err(ParseError::OutOfTokens)
    } else if tokens[pos].typ == typ {
        Ok(advance(tokens, pos))
    } else {
        Err(ParseError::MissingToken(tokens[pos], wanted))
    }
}

/// Whether a declaration or a statement can start with a token of this kind.
pub open spec fn starts_statement(typ: TokenType) -> bool {
    typ == TokenType::CLASS || typ == TokenType::FUN || typ == TokenType::VAR || typ
        == TokenType::FOR || typ == TokenType::IF || typ == TokenType::WHILE || typ
        == TokenType::PRINT || typ == TokenType::RETURN
}

/// Where the parser goes on from `pos` after an error: behind the next
/// semicolon, or at the next token that can start a statement.
pub open spec fn resume(tokens: Seq<Token>, pos: int) -> int
    decreases tokens.len() - pos,
{
    if !inside(tokens, pos) || tokens[pos].typ == TokenType::EOF {
        pos
    } else if pos > 0 && tokens[pos - 1].typ == TokenType::SEMICOLON {
        pos
    } else if starts_statement(tokens[pos].typ) {
        pos
    } else {
        resume(tokens, pos + 1)
    }
}

/// Where the parser goes on after an error at `pos`: the token at `pos` is
/// skipped in any case.
pub open spec fn synchronize(tokens: Seq<Token>, pos: int) -> int {
    if !inside(tokens, pos) {
        pos
    } else {
        resume(tokens, advance(tokens, pos))
    }
}

/// The binary operator that a token of kind `typ` writes on precedence level
/// `level`: 0 for equality, 1 for comparison, 2 for terms, 3 for factors.
pub open spec fn binary_operator(level: nat, typ: TokenType) -> Option<BinaryOperator> {
    if level == 0 && typ == TokenType::BANGEQUAL {
        Some(BinaryOperator::BANGEQUAL)
    } else if level == 0 && typ == TokenType::EQUALEQUAL {
        Some(BinaryOperator::EQUALEQUAL)
    } else if level == 1 && typ == TokenType::GREATER {
        Some(BinaryOperator::GREATER)
    } else if level == 1 && typ == TokenType::GREATEREQUAL {
        Some(BinaryOperator::GREATEREQUAL)
    } else if level == 1 && typ == TokenType::LESS {
        Some(BinaryOperator::LESS)
    } else if level == 1 && typ == TokenType::LESSEQUAL {
        Some(BinaryOperator::LESSEQUAL)
    } else if level == 2 && typ == TokenType::MINUS {
        Some(BinaryOperator::MINUS)
    } else if level == 2 && typ == TokenType::PLUS {
        Some(BinaryOperator::PLUS)
    } else if level == 3 && typ == TokenType::SLASH {
        Some(BinaryOperator::SLASH)
    } else if level == 3 && typ == TokenType::STAR {
        Some(BinaryOperator::STAR)
    } else {
        None
    }
}

/// The identifier that a token names.
pub open spec fn identifier_of(token: Token) -> Identifier {
    Identifier { name: token.lexeme, line: token.line }
}

/// A tree with its line.
pub open spec fn node(line: usize, expr: ExpressionView) -> NodeView {
    NodeView { line, expr }
}

/// `primary := true | false | nil | NUMBER | STRING | IDENTIFIER
///           | '(' expression ')' | 'fun' function`
#[verifier::opaque]
pub open spec fn primary(tokens: Seq<Token>, pos: int, errors: Seq<ParseError>) -> Parsed<NodeView>
    decreases tokens.len() - pos, 4nat,
{
    if !inside(tokens, pos) {
        lost(pos, errors)
    } else {
        let token = tokens[pos];
        if token.typ == TokenType::TRUE {
            done(node(token.line, ExpressionView::Literal(Literal::Boolean(true))), pos + 1, errors)
        } else if token.typ == TokenType::FALSE {
            done(
                node(token.line, ExpressionView::Literal(Literal::Boolean(false))),
                pos + 1,
                errors,
            )
        } else if token.typ == TokenType::NIL {
            done(node(token.line, ExpressionView::Literal(Literal::Nil)), pos + 1, errors)
        } else if token.typ == TokenType::NUMBER || token.typ == TokenType::STRING {
            match token.literal {
                Some(literal) => done(
                    node(token.line, ExpressionView::Literal(literal)),
                    pos + 1,
                    errors,
                ),
                None => failed(ParseError::MissingExpr(token), pos, errors),
            }
        } else if token.typ == TokenType::IDENTIFIER {
            done(
                node(
                    token.line,
                    ExpressionView::Variable(
                        Variable { identifier: identifier_of(token), depth: None },
                    ),
                ),
                pos + 1,
                errors,
            )
        } else if token.typ == TokenType::LEFTPAREN {
            let inner = closed_expression(
                tokens,
                pos + 1,
                errors,
                TokenType::RIGHTPAREN,
                Expectation::ParenAfterExpression,
            );
            match inner.value {
                Ok(e) => done(
                    node(token.line, ExpressionView::Grouping(Box::new(e))),
                    inner.next,
                    inner.errors,
                ),
                Err(error) => inner,
            }
        } else if token.typ == TokenType::FUN {
            let parsed = function(tokens, pos + 1, errors, None);
            match parsed.value {
                Ok(f) => done(
                    node(token.line, ExpressionView::FunctionExpression(Box::new(f))),
                    parsed.next,
                    parsed.errors,
                ),
                Err(error) => failed(error, parsed.next, parsed.errors),
            }
        } else {
            failed(ParseError::MissingExpr(token), pos, errors)
        }
    }
}

/// The arguments of a call, from `pos` on, after those in `given`: each is an
/// assignment expression, and a comma stands between two of them.
#[verifier::opaque]
pub open spec fn arguments(
    tokens: Seq<Token>,
    pos: int,
    errors: Seq<ParseError>,
    given: Seq<NodeView>,
) -> Parsed<Seq<NodeView>>
    decreases tokens.len() - pos, 17nat,
{
    if !inside(tokens, pos) {
        lost(pos, errors)
    } else if given.len() >= MAX_ARGUMENTS {
        failed(ParseError::CallArgumentSize(tokens[pos]), pos, errors)
    } else {
        let item = assignment(tokens, pos, errors);
        match item.value {
            Ok(e) => if !onward(tokens, pos, item.next) {
                lost(item.next, item.errors)
            } else if tokens[item.next].typ == TokenType::COMMA {
                arguments(tokens, item.next + 1, item.errors, given.push(e))
            } else {
                done(given.push(e), item.next, item.errors)
            },
            Err(error) => failed(error, item.next, item.errors),
        }
    }
}

/// The arguments of a call between its parentheses, and the closing one.
#[verifier::opaque]
pub open spec fn argument_list(tokens: Seq<Token>, pos: int, errors: Seq<ParseError>) -> Parsed<
    Seq<NodeView>,
>
    decreases tokens.len() - pos, 18nat,
{
    if !inside(tokens, pos) {
        lost(pos, errors)
    } else {
        let list = if tokens[pos].typ == TokenType::RIGHTPAREN {
            done(Seq::<NodeView>::empty(), pos, errors)
        } else {
            arguments(tokens, pos, errors, Seq::empty())
        };
        match list.value {
            Ok(given) => match expect(
                tokens,
                list.next,
                TokenType::RIGHTPAREN,
                Expectation::ParenAfterArguments,
            ) {
                Ok(next) => done(given, next, list.errors),
                Err(error) => failed(error, list.next, list.errors),
            },
            Err(error) => list,
        }
    }
}

/// The call of `callee` whose opening parenthesis stands before `pos`: the
/// arguments, the closing parenthesis, and the tree of the call.
#[verifier::opaque]
pub open spec fn finish_call(
    tokens: Seq<Token>,
    pos: int,
    errors: Seq<ParseError>,
    callee: NodeView,
) -> Parsed<NodeView>
    decreases tokens.len() - pos, 19nat,
{
    let list = argument_list(tokens, pos, errors);
    match list.value {
        Ok(given) => if !onward(tokens, pos, list.next) {
            lost(list.next, list.errors)
        } else {
            done(
                node(
                    tokens[list.next - 1].line,
                    ExpressionView::CallExpression(Box::new(callee), tokens[list.next - 1], given),
                ),
                list.next,
                list.errors,
            )
        },
        Err(error) => failed(error, list.next, list.errors),
    }
}

/// What follows a callee: calls and property reads, in any number.
#[verifier::opaque]
pub open spec fn call_rest(
    tokens: Seq<Token>,
    pos: int,
    errors: Seq<ParseError>,
    callee: NodeView,
) -> Parsed<NodeView>
    decreases tokens.len() - pos, 20nat,
{
    if !inside(tokens, pos) {
        lost(pos, errors)
    } else if tokens[pos].typ == TokenType::LEFTPAREN {
        let made = finish_call(tokens, pos + 1, errors, callee);
        match made.value {
            Ok(called) => if !onward(tokens, pos, made.next) {
                lost(made.next, made.errors)
            } else {
                call_rest(tokens, made.next, made.errors, called)
            },
            Err(error) => made,
        }
    } else if tokens[pos].typ == TokenType::DOT {
        match expect(tokens, pos + 1, TokenType::IDENTIFIER, Expectation::PropertyName) {
            Ok(next) => if !onward(tokens, pos, next) {
                lost(next, errors)
            } else {
                call_rest(
                    tokens,
                    next,
                    errors,
                    node(
                        tokens[pos + 1].line,
                        ExpressionView::GetExpression(
                            identifier_of(tokens[pos + 1]),
                            Box::new(callee),
                        ),
                    ),
                )
            },
            Err(error) => failed(error, pos + 1, errors),
        }
    } else {
        done(callee, pos, errors)
    }
}

/// `call := primary ( '(' arguments? ')' | '.' IDENTIFIER )*`
#[verifier::opaque]
pub open spec fn call(tokens: Seq<Token>, pos: int, errors: Seq<ParseError>) -> Parsed<NodeView>
    decreases tokens.len() - pos, 5nat,
{
    let first = primary(tokens, pos, errors);
    match first.value {
        Ok(callee) => if !onward(tokens, pos, first.next) {
            lost(first.next, first.errors)
        } else {
            call_rest(tokens, first.next, first.errors, callee)
        },
        Err(error) => first,
    }
}

/// `unary := ( '!' | '-' ) unary | call`
#[verifier::opaque]
pub open spec fn unary(tokens: Seq<Token>, pos: int, errors: Seq<ParseError>) -> Parsed<NodeView>
    decreases tokens.len() - pos, 6nat,
{
    if !inside(tokens, pos) {
        lost(pos, errors)
    } else if tokens[pos].typ == TokenType::BANG || tokens[pos].typ == TokenType::MINUS {
        let operand = unary(tokens, pos + 1, errors);
        match operand.value {
            Ok(e) => done(
                node(
                    tokens[pos].line,
                    ExpressionView::Unary(
                        if tokens[pos].typ == TokenType::BANG {
                            UnaryOperator::BANG
                        } else {
                            UnaryOperator::MINUS
                        },
                        Box::new(e),
                    ),
                ),
                operand.next,
                operand.errors,
            ),
            Err(error) => operand,
        }
    } else {
        call(tokens, pos, errors)
    }
}

/// What follows the left operand of a binary operator of level `level`: the
/// operators of that level with their right operands, in any number; they
/// group to the left.
#[verifier::opaque]
pub open spec fn binary_rest(
    tokens: Seq<Token>,
    pos: int,
    errors: Seq<ParseError>,
    level: nat,
    left: NodeView,
) -> Parsed<NodeView>
    decreases tokens.len() - pos, 17nat,
{
    if !inside(tokens, pos) {
        lost(pos, errors)
    } else {
        match binary_operator(level, tokens[pos].typ) {
            Some(operator) => {
                let right = binary(tokens, pos + 1, errors, level + 1);
                match right.value {
                    Ok(e) => if !onward(tokens, pos, right.next) {
                        lost(right.next, right.errors)
                    } else {
                        binary_rest(
                            tokens,
                            right.next,
                            right.errors,
                            level,
                            node(
                                tokens[pos].line,
                                ExpressionView::BinaryExpression(
                                    Box::new(left),
                                    operator,
                                    Box::new(e),
                                ),
                            ),
                        )
                    },
                    Err(error) => right,
                }
            },
            None => done(left, pos, errors),
        }
    }
}

/// The binary expressions of level `level` and above: equality, comparison,
/// terms, factors, and above them the unary expressions.
#[verifier::opaque]
pub open spec fn binary(tokens: Seq<Token>, pos: int, errors: Seq<ParseError>, level: nat) -> Parsed<
    NodeView,
>
    decreases tokens.len() - pos, if level >= 4 {
        7nat
    } else {
        (11 - level) as nat
    },
{
    if level >= 4 {
        unary(tokens, pos, errors)
    } else {
        let first = binary(tokens, pos, errors, level + 1);
        match first.value {
            Ok(left) => if !onward(tokens, pos, first.next) {
                lost(first.next, first.errors)
            } else {
                binary_rest(tokens, first.next, first.errors, level, left)
            },
            Err(error) => first,
        }
    }
}

/// `ternary := equality ( '?' expression ':' expression )?`
#[verifier::opaque]
pub open spec fn ternary(tokens: Seq<Token>, pos: int, errors: Seq<ParseError>) -> Parsed<NodeView>
    decreases tokens.len() - pos, 12nat,
{
    let first = binary(tokens, pos, errors, 0);
    match first.value {
        Ok(condition) => if !onward(tokens, pos, first.next) {
            lost(first.next, first.errors)
        } else if tokens[first.next].typ == TokenType::QUESTIONMARK {
            let second = closed_expression(
                tokens,
                first.next + 1,
                first.errors,
                TokenType::COLON,
                Expectation::ColonAfterThenBranch,
            );
            match second.value {
                Ok(chosen) => if !onward(tokens, pos, second.next) {
                    lost(second.next, second.errors)
                } else {
                    let third = expression(tokens, second.next, second.errors);
                    match third.value {
                        Ok(other) => done(
                            node(
                                tokens[first.next].line,
                                ExpressionView::TernaryExpression(
                                    Box::new(condition),
                                    TernaryOperator::QUESTIONMARK,
                                    Box::new(chosen),
                                    Box::new(other),
                                ),
                            ),
                            third.next,
                            third.errors,
                        ),
                        Err(error) => third,
                    }
                },
                Err(error) => second,
            }
        } else {
            first
        },
        Err(error) => first,
    }
}

/// What follows the left operand of `and` (level 1) or `or` (level 0).
#[verifier::opaque]
pub open spec fn logical_rest(
    tokens: Seq<Token>,
    pos: int,
    errors: Seq<ParseError>,
    level: nat,
    left: NodeView,
) -> Parsed<NodeView>
    decreases tokens.len() - pos, 17nat,
{
    if !inside(tokens, pos) {
        lost(pos, errors)
    } else if level == 0 && tokens[pos].typ == TokenType::OR {
        let right = logical(tokens, pos + 1, errors, 1);
        match right.value {
            Ok(e) => if !onward(tokens, pos, right.next) {
                lost(right.next, right.errors)
            } else {
                logical_rest(
                    tokens,
                    right.next,
                    right.errors,
                    level,
                    node(
                        tokens[pos].line,
                        ExpressionView::Or(Box::new(left), LogicalOperator::OR, Box::new(e)),
                    ),
                )
            },
            Err(error) => right,
        }
    } else if level != 0 && tokens[pos].typ == TokenType::AND {
        let right = ternary(tokens, pos + 1, errors);
        match right.value {
            Ok(e) => if !onward(tokens, pos, right.next) {
                lost(right.next, right.errors)
            } else {
                logical_rest(
                    tokens,
                    right.next,
                    right.errors,
                    level,
                    node(
                        tokens[pos].line,
                        ExpressionView::And(Box::new(left), LogicalOperator::AND, Box::new(e)),
                    ),
                )
            },
            Err(error) => right,
        }
    } else {
        done(left, pos, errors)
    }
}

/// `or := and ( 'or' and )*` on level 0, `and := ternary ( 'and' ternary )*`
/// on level 1.
#[verifier::opaque]
pub open spec fn logical(tokens: Seq<Token>, pos: int, errors: Seq<ParseError>, level: nat) -> Parsed<
    NodeView,
>
    decreases tokens.len() - pos, if level == 0 {
        14nat
    } else {
        13nat
    },
{
    let first = if level == 0 {
        logical(tokens, pos, errors, 1)
    } else {
        ternary(tokens, pos, errors)
    };
    match first.value {
        Ok(left) => if !onward(tokens, pos, first.next) {
            lost(first.next, first.errors)
        } else {
            logical_rest(tokens, first.next, first.errors, level, left)
        },
        Err(error) => first,
    }
}

/// The assignment of `value` to `target`, written with the `=` at `equals`:
/// the target is a variable or a property read.
pub open spec fn assign(target: NodeView, equals: Token, value: NodeView) -> Result<
    NodeView,
    ParseError,
> {
    match target.expr {
        ExpressionView::Variable(variable) => Ok(
            node(equals.line, ExpressionView::Assignment(variable, Box::new(value))),
        ),
        ExpressionView::GetExpression(name, object) => Ok(
            node(equals.line, ExpressionView::SetExpression(object, name, Box::new(value))),
        ),
        _ => Err(ParseError::InvalidAssignmentTarget(equals)),
    }
}

/// `assignment := or ( '=' assignment )?`
#[verifier::opaque]
pub open spec fn assignment(tokens: Seq<Token>, pos: int, errors: Seq<ParseError>) -> Parsed<
    NodeView,
>
    decreases tokens.len() - pos, 15nat,
{
    let first = logical(tokens, pos, errors, 0);
    match first.value {
        Ok(target) => if !onward(tokens, pos, first.next) {
            lost(first.next, first.errors)
        } else if tokens[first.next].typ == TokenType::EQUAL {
            let second = assignment(tokens, first.next + 1, first.errors);
            match second.value {
                Ok(value) => Parsed {
                    value: assign(target, tokens[first.next], value),
                    next: second.next,
                    errors: second.errors,
                },
                Err(error) => second,
            }
        } else {
            first
        },
        Err(error) => first,
    }
}

/// `expression := assignment ( ',' expression )?`
#[verifier::opaque]
pub open spec fn expression(tokens: Seq<Token>, pos: int, errors: Seq<ParseError>) -> Parsed<
    NodeView,
>
    decreases tokens.len() - pos, 16nat,
{
    let first = assignment(tokens, pos, errors);
    match first.value {
        Ok(left) => if !onward(tokens, pos, first.next) {
            lost(first.next, first.errors)
        } else if tokens[first.next].typ == TokenType::COMMA {
            let second = expression(tokens, first.next + 1, first.errors);
            match second.value {
                Ok(right) => done(
                    node(
                        tokens[first.next].line,
                        ExpressionView::BinaryExpression(
                            Box::new(left),
                            BinaryOperator::COMMA,
                            Box::new(right),
                        ),
                    ),
                    second.next,
                    second.errors,
                ),
                Err(error) => second,
            }
        } else {
            first
        },
        Err(error) => first,
    }
}

/// An expression followed by the token `closing`.
#[verifier::opaque]
pub open spec fn closed_expression(
    tokens: Seq<Token>,
    pos: int,
    errors: Seq<ParseError>,
    closing: TokenType,
    wanted: Expectation,
) -> Parsed<NodeView>
    decreases tokens.len() - pos, 17nat,
{
    let value = expression(tokens, pos, errors);
    match value.value {
        Ok(e) => match expect(tokens, value.next, closing, wanted) {
            Ok(next) => done(e, next, value.errors),
            Err(error) => failed(error, value.next, value.errors),
        },
        Err(error) => value,
    }
}

/// The parameters of a function, from `pos` on, after those in `names`; a
/// parameter too many is reported and parsing goes on.
#[verifier::opaque]
pub open spec fn parameters(
    tokens: Seq<Token>,
    pos: int,
    errors: Seq<ParseError>,
    names: Seq<Identifier>,
) -> Parsed<Seq<Identifier>>
    decreases tokens.len() - pos, 17nat,
{
    if !inside(tokens, pos) {
        lost(pos, errors)
    } else {
        let noted = if names.len() >= MAX_ARGUMENTS {
            errors.push(ParseError::CallArgumentSize(tokens[pos]))
        } else {
            errors
        };
        match expect(tokens, pos, TokenType::IDENTIFIER, Expectation::ParameterName) {
            Ok(next) => if !onward(tokens, pos, next) {
                lost(next, noted)
            } else if tokens[next].typ == TokenType::COMMA {
                parameters(tokens, next + 1, noted, names.push(identifier_of(tokens[pos])))
            } else {
                done(names.push(identifier_of(tokens[pos])), next, noted)
            },
            Err(error) => failed(error, pos, noted),
        }
    }
}

/// The parameters of a function between its parentheses, the closing one,
/// and the brace that opens the body.
#[verifier::opaque]
pub open spec fn parameter_list(tokens: Seq<Token>, pos: int, errors: Seq<ParseError>) -> Parsed<
    Seq<Identifier>,
>
    decreases tokens.len() - pos, 18nat,
{
    if !inside(tokens, pos) {
        lost(pos, errors)
    } else {
        let list = if tokens[pos].typ == TokenType::RIGHTPAREN {
            done(Seq::<Identifier>::empty(), pos, errors)
        } else {
            parameters(tokens, pos, errors, Seq::empty())
        };
        match list.value {
            Ok(names) => match expect(
                tokens,
                list.next,
                TokenType::RIGHTPAREN,
                Expectation::ParenAfterParameters,
            ) {
                Ok(close) => match expect(
                    tokens,
                    close,
                    TokenType::LEFTBRACE,
                    Expectation::BraceBeforeFunctionBody,
                ) {
                    Ok(start) => done(names, start, list.errors),
                    Err(error) => failed(error, close, list.errors),
                },
                Err(error) => failed(error, list.next, list.errors),
            },
            Err(error) => list,
        }
    }
}

/// `function := '(' parameters? ')' '{' block`, for the function named `name`.
#[verifier::opaque]
pub open spec fn function(
    tokens: Seq<Token>,
    pos: int,
    errors: Seq<ParseError>,
    name: Option<Identifier>,
) -> Parsed<FunctionView>
    decreases tokens.len() - pos, 19nat,
{
    match expect(
        tokens,
        pos,
        TokenType::LEFTPAREN,
        if name.is_some() {
            Expectation::ParenAfterFunctionName
        } else {
            Expectation::ParenAfterFun
        },
    ) {
        Ok(open) => if !onward(tokens, pos, open) {
            lost(open, errors)
        } else {
            let list = parameter_list(tokens, open, errors);
            match list.value {
                Ok(names) => if !onward(tokens, pos, list.next) {
                    lost(list.next, list.errors)
                } else {
                    let body = block(tokens, list.next, list.errors, Seq::empty());
                    match body.value {
                        Ok(statements) => done(
                            FunctionView { identifier: name, parameters: names, body: statements },
                            body.next,
                            body.errors,
                        ),
                        Err(error) => failed(error, body.next, body.errors),
                    }
                },
                Err(error) => failed(error, list.next, list.errors),
            }
        },
        Err(error) => failed(error, pos, errors),
    }
}

/// The declarations of a block, from `pos` on, after those in `held`, and the
/// closing brace. A declaration that cannot be parsed is reported and left out.
#[verifier::opaque]
pub open spec fn block(
    tokens: Seq<Token>,
    pos: int,
    errors: Seq<ParseError>,
    held: Seq<StatementView>,
) -> Parsed<Seq<StatementView>>
    decreases tokens.len() - pos, 23nat,
{
    if !inside(tokens, pos) {
        lost(pos, errors)
    } else if tokens[pos].typ == TokenType::RIGHTBRACE || tokens[pos].typ == TokenType::EOF {
        match expect(tokens, pos, TokenType::RIGHTBRACE, Expectation::BraceAfterBlock) {
            Ok(next) => done(held, next, errors),
            Err(error) => failed(error, pos, errors),
        }
    } else {
        let item = declaration(tokens, pos, errors);
        if !onward(tokens, pos, item.next) {
            lost(item.next, item.errors)
        } else {
            match item.value {
                Ok(statement) => block(tokens, item.next, item.errors, held.push(statement)),
                Err(error) => block(tokens, item.next, item.errors.push(error), held),
            }
        }
    }
}

/// `varDecl := IDENTIFIER ( '=' expression )? ';'`, behind `var`.
#[verifier::opaque]
pub open spec fn var_declaration(tokens: Seq<Token>, pos: int, errors: Seq<ParseError>) -> Parsed<
    StatementView,
>
    decreases tokens.len() - pos, 18nat,
{
    if !inside(tokens, pos) {
        lost(pos, errors)
    } else if tokens[pos].typ != TokenType::IDENTIFIER {
        failed(ParseError::MissingVariableName(tokens[pos]), pos, errors)
    } else if !inside(tokens, pos + 1) {
        lost(pos + 1, errors)
    } else if tokens[pos + 1].typ == TokenType::EQUAL {
        let value = closed_expression(
            tokens,
            pos + 2,
            errors,
            TokenType::SEMICOLON,
            Expectation::SemicolonAfterVariable,
        );
        match value.value {
            Ok(e) => done(
                StatementView::VariableDeclaration(identifier_of(tokens[pos]), Some(Box::new(e))),
                value.next,
                value.errors,
            ),
            Err(error) => failed(error, value.next, value.errors),
        }
    } else {
        match expect(tokens, pos + 1, TokenType::SEMICOLON, Expectation::SemicolonAfterVariable) {
            Ok(next) => done(
                StatementView::VariableDeclaration(identifier_of(tokens[pos]), None),
                next,
                errors,
            ),
            Err(error) => failed(error, pos + 1, errors),
        }
    }
}

/// The methods of a class, from `pos` on, after those in `held`: each is a
/// name followed by a function.
#[verifier::opaque]
pub open spec fn methods(
    tokens: Seq<Token>,
    pos: int,
    errors: Seq<ParseError>,
    held: Seq<FunctionView>,
) -> Parsed<Seq<FunctionView>>
    decreases tokens.len() - pos, 20nat,
{
    if !inside(tokens, pos) {
        lost(pos, errors)
    } else if tokens[pos].typ == TokenType::RIGHTBRACE || tokens[pos].typ == TokenType::EOF {
        done(held, pos, errors)
    } else {
        match expect(tokens, pos, TokenType::IDENTIFIER, Expectation::MethodName) {
            Ok(next) => if !onward(tokens, pos, next) {
                lost(next, errors)
            } else {
                let method = function(tokens, next, errors, Some(identifier_of(tokens[pos])));
                match method.value {
                    Ok(f) => if !onward(tokens, pos, method.next) {
                        lost(method.next, method.errors)
                    } else {
                        methods(tokens, method.next, method.errors, held.push(f))
                    },
                    Err(error) => failed(error, method.next, method.errors),
                }
            },
            Err(error) => failed(error, pos, errors),
        }
    }
}

/// `classDecl := IDENTIFIER '{' method* '}'`, behind `class`.
#[verifier::opaque]
pub open spec fn class_declaration(tokens: Seq<Token>, pos: int, errors: Seq<ParseError>) -> Parsed<
    StatementView,
>
    decreases tokens.len() - pos, 21nat,
{
    match expect(tokens, pos, TokenType::IDENTIFIER, Expectation::ClassName) {
        Ok(next) => match expect(
            tokens,
            next,
            TokenType::LEFTBRACE,
            Expectation::BraceBeforeClassBody,
        ) {
            Ok(start) => if !onward(tokens, pos, start) {
                lost(start, errors)
            } else {
                let list = methods(tokens, start, errors, Seq::empty());
                match list.value {
                    Ok(found) => match expect(
                        tokens,
                        list.next,
                        TokenType::RIGHTBRACE,
                        Expectation::BraceAfterClassBody,
                    ) {
                        Ok(end) => done(
                            StatementView::ClassDeclaration(identifier_of(tokens[pos]), found),
                            end,
                            list.errors,
                        ),
                        Err(error) => failed(error, list.next, list.errors),
                    },
                    Err(error) => failed(error, list.next, list.errors),
                }
            },
            Err(error) => failed(error, next, errors),
        },
        Err(error) => failed(error, pos, errors),
    }
}

/// `'(' expression ')'`, as it stands behind `if` and `while`.
#[verifier::opaque]
pub open spec fn condition(
    tokens: Seq<Token>,
    pos: int,
    errors: Seq<ParseError>,
    before: Expectation,
    after: Expectation,
) -> Parsed<NodeView>
    decreases tokens.len() - pos, 18nat,
{
    match expect(tokens, pos, TokenType::LEFTPAREN, before) {
        Ok(next) => if !onward(tokens, pos, next) {
            lost(next, errors)
        } else {
            closed_expression(tokens, next, errors, TokenType::RIGHTPAREN, after)
        },
        Err(error) => failed(error, pos, errors),
    }
}

/// `ifStmt := '(' expression ')' statement ( 'else' statement )?`, behind
/// `if`; an `else` belongs to the nearest `if`.
#[verifier::opaque]
pub open spec fn if_statement(tokens: Seq<Token>, pos: int, errors: Seq<ParseError>) -> Parsed<
    StatementView,
>
    decreases tokens.len() - pos, 20nat,
{
    let head = condition(
        tokens,
        pos,
        errors,
        Expectation::ParenAfterIf,
        Expectation::ParenAfterIfCondition,
    );
    match head.value {
        Ok(c) => if !onward(tokens, pos, head.next) {
            lost(head.next, head.errors)
        } else {
            let first = statement(tokens, head.next, head.errors);
            match first.value {
                Ok(then_branch) => if !onward(tokens, pos, first.next) {
                    lost(first.next, first.errors)
                } else if tokens[first.next].typ == TokenType::ELSE {
                    let second = statement(tokens, first.next + 1, first.errors);
                    match second.value {
                        Ok(else_branch) => done(
                            StatementView::IfStatement(
                                Box::new(c),
                                Box::new(then_branch),
                                Some(Box::new(else_branch)),
                            ),
                            second.next,
                            second.errors,
                        ),
                        Err(error) => second,
                    }
                } else {
                    done(
                        StatementView::IfStatement(Box::new(c), Box::new(then_branch), None),
                        first.next,
                        first.errors,
                    )
                },
                Err(error) => first,
            }
        },
        Err(error) => failed(error, head.next, head.errors),
    }
}

/// `whileStmt := '(' expression ')' statement`, behind `while`.
#[verifier::opaque]
pub open spec fn while_statement(tokens: Seq<Token>, pos: int, errors: Seq<ParseError>) -> Parsed<
    StatementView,
>
    decreases tokens.len() - pos, 20nat,
{
    let head = condition(
        tokens,
        pos,
        errors,
        Expectation::ParenAfterWhile,
        Expectation::ParenAfterWhileCondition,
    );
    match head.value {
        Ok(c) => if !onward(tokens, pos, head.next) {
            lost(head.next, head.errors)
        } else {
            let body = statement(tokens, head.next, head.errors);
            match body.value {
                Ok(s) => done(
                    StatementView::WhileStatement(Box::new(c), Box::new(s)),
                    body.next,
                    body.errors,
                ),
                Err(error) => body,
            }
        },
        Err(error) => failed(error, head.next, head.errors),
    }
}

/// The loop that a `for` statement stands for:
/// `{ initializer; while (condition) { body; increment; } }`, without the
/// parts that are left out.
pub open spec fn desugar(
    initializer: Option<StatementView>,
    condition: NodeView,
    increment: Option<NodeView>,
    body: StatementView,
) -> StatementView {
    let inner = match increment {
        Some(step) => StatementView::BlockStatement(
            seq![body, StatementView::ExpressionStatement(Box::new(step))],
        ),
        None => body,
    };
    let repeated = StatementView::WhileStatement(Box::new(condition), Box::new(inner));
    match initializer {
        Some(first) => StatementView::BlockStatement(seq![first, repeated]),
        None => repeated,
    }
}

/// The first clause of a `for` statement: nothing, a variable declaration,
/// or an expression statement.
#[verifier::opaque]
pub open spec fn for_initializer(tokens: Seq<Token>, pos: int, errors: Seq<ParseError>) -> Parsed<
    Option<StatementView>,
>
    decreases tokens.len() - pos, 19nat,
{
    if !inside(tokens, pos) {
        lost(pos, errors)
    } else if tokens[pos].typ == TokenType::SEMICOLON {
        done(None, pos + 1, errors)
    } else {
        let first = if tokens[pos].typ == TokenType::VAR {
            var_declaration(tokens, pos + 1, errors)
        } else {
            expression_statement(tokens, pos, errors)
        };
        match first.value {
            Ok(s) => done(Some(s), first.next, first.errors),
            Err(error) => failed(error, first.next, first.errors),
        }
    }
}

/// The second clause of a `for` statement: an expression, or `true` where
/// it is left out; then the semicolon.
#[verifier::opaque]
pub open spec fn for_condition(tokens: Seq<Token>, pos: int, errors: Seq<ParseError>) -> Parsed<
    NodeView,
>
    decreases tokens.len() - pos, 19nat,
{
    if !inside(tokens, pos) {
        lost(pos, errors)
    } else if tokens[pos].typ == TokenType::SEMICOLON {
        done(
            node(tokens[pos].line, ExpressionView::Literal(Literal::Boolean(true))),
            pos + 1,
            errors,
        )
    } else {
        closed_expression(
            tokens,
            pos,
            errors,
            TokenType::SEMICOLON,
            Expectation::SemicolonAfterLoopCondition,
        )
    }
}

/// The third clause of a `for` statement: an expression or nothing; then
/// the closing parenthesis.
#[verifier::opaque]
pub open spec fn for_increment(tokens: Seq<Token>, pos: int, errors: Seq<ParseError>) -> Parsed<
    Option<NodeView>,
>
    decreases tokens.len() - pos, 19nat,
{
    if !inside(tokens, pos) {
        lost(pos, errors)
    } else if tokens[pos].typ == TokenType::RIGHTPAREN {
        done(None, pos + 1, errors)
    } else {
        let step = closed_expression(
            tokens,
            pos,
            errors,
            TokenType::RIGHTPAREN,
            Expectation::ParenAfterForClauses,
        );
        match step.value {
            Ok(e) => done(Some(e), step.next, step.errors),
            Err(error) => failed(error, step.next, step.errors),
        }
    }
}

/// `forStmt := '(' ( varDecl | exprStmt | ';' ) expression? ';' expression? ')'
/// statement`, behind `for`.
#[verifier::opaque]
pub open spec fn for_statement(tokens: Seq<Token>, pos: int, errors: Seq<ParseError>) -> Parsed<
    StatementView,
>
    decreases tokens.len() - pos, 20nat,
{
    match expect(tokens, pos, TokenType::LEFTPAREN, Expectation::ParenAfterFor) {
        Ok(start) => if !onward(tokens, pos, start) {
            lost(start, errors)
        } else {
            let first = for_initializer(tokens, start, errors);
            match first.value {
                Ok(initializer) => if !onward(tokens, pos, first.next) {
                    lost(first.next, first.errors)
                } else {
                    let second = for_condition(tokens, first.next, first.errors);
                    match second.value {
                        Ok(c) => if !onward(tokens, pos, second.next) {
                            lost(second.next, second.errors)
                        } else {
                            let third = for_increment(tokens, second.next, second.errors);
                            match third.value {
                                Ok(increment) => if !onward(tokens, pos, third.next) {
                                    lost(third.next, third.errors)
                                } else {
                                    let body = statement(tokens, third.next, third.errors);
                                    match body.value {
                                        Ok(s) => done(
                                            desugar(initializer, c, increment, s),
                                            body.next,
                                            body.errors,
                                        ),
                                        Err(error) => body,
                                    }
                                },
                                Err(error) => failed(error, third.next, third.errors),
                            }
                        },
                        Err(error) => failed(error, second.next, second.errors),
                    }
                },
                Err(error) => failed(error, first.next, first.errors),
            }
        },
        Err(error) => failed(error, pos, errors),
    }
}

/// `exprStmt := expression ';'`
#[verifier::opaque]
pub open spec fn expression_statement(tokens: Seq<Token>, pos: int, errors: Seq<ParseError>) -> Parsed<
    StatementView,
>
    decreases tokens.len() - pos, 18nat,
{
    let value = closed_expression(
        tokens,
        pos,
        errors,
        TokenType::SEMICOLON,
        Expectation::SemicolonAfterExpression,
    );
    match value.value {
        Ok(e) => done(StatementView::ExpressionStatement(Box::new(e)), value.next, value.errors),
        Err(error) => failed(error, value.next, value.errors),
    }
}

/// `printStmt := expression ';'`, behind `print`.
#[verifier::opaque]
pub open spec fn print_statement(tokens: Seq<Token>, pos: int, errors: Seq<ParseError>) -> Parsed<
    StatementView,
>
    decreases tokens.len() - pos, 18nat,
{
    let value = closed_expression(
        tokens,
        pos,
        errors,
        TokenType::SEMICOLON,
        Expectation::SemicolonAfterValue,
    );
    match value.value {
        Ok(e) => done(StatementView::PrintStatement(Box::new(e)), value.next, value.errors),
        Err(error) => failed(error, value.next, value.errors),
    }
}

/// `returnStmt := expression? ';'`, behind the `return` on line `line`.
#[verifier::opaque]
pub open spec fn return_statement(
    tokens: Seq<Token>,
    pos: int,
    errors: Seq<ParseError>,
    line: usize,
) -> Parsed<StatementView>
    decreases tokens.len() - pos, 18nat,
{
    if !inside(tokens, pos) {
        lost(pos, errors)
    } else if tokens[pos].typ == TokenType::SEMICOLON {
        done(StatementView::ReturnStatement(line, None), pos + 1, errors)
    } else {
        let value = closed_expression(
            tokens,
            pos,
            errors,
            TokenType::SEMICOLON,
            Expectation::SemicolonAfterReturn,
        );
        match value.value {
            Ok(e) => done(
                StatementView::ReturnStatement(line, Some(Box::new(e))),
                value.next,
                value.errors,
            ),
            Err(error) => failed(error, value.next, value.errors),
        }
    }
}

/// `statement := ifStmt | printStmt | whileStmt | forStmt | returnStmt | block
///             | exprStmt`
#[verifier::opaque]
pub open spec fn statement(tokens: Seq<Token>, pos: int, errors: Seq<ParseError>) -> Parsed<
    StatementView,
>
    decreases tokens.len() - pos, 21nat,
{
    if !inside(tokens, pos) {
        lost(pos, errors)
    } else if tokens[pos].typ == TokenType::IF {
        if_statement(tokens, pos + 1, errors)
    } else if tokens[pos].typ == TokenType::PRINT {
        print_statement(tokens, pos + 1, errors)
    } else if tokens[pos].typ == TokenType::WHILE {
        while_statement(tokens, pos + 1, errors)
    } else if tokens[pos].typ == TokenType::FOR {
        for_statement(tokens, pos + 1, errors)
    } else if tokens[pos].typ == TokenType::RETURN {
        return_statement(tokens, pos + 1, errors, tokens[pos].line)
    } else if tokens[pos].typ == TokenType::LEFTBRACE {
        let body = block(tokens, pos + 1, errors, Seq::empty());
        match body.value {
            Ok(statements) => done(
                StatementView::BlockStatement(statements),
                body.next,
                body.errors,
            ),
            Err(error) => failed(error, body.next, body.errors),
        }
    } else {
        expression_statement(tokens, pos, errors)
    }
}

/// `funDecl := IDENTIFIER function`, behind `fun`.
#[verifier::opaque]
pub open spec fn function_declaration(tokens: Seq<Token>, pos: int, errors: Seq<ParseError>) -> Parsed<
    StatementView,
>
    decreases tokens.len() - pos, 21nat,
{
    match expect(tokens, pos, TokenType::IDENTIFIER, Expectation::FunctionName) {
        Ok(next) => if !onward(tokens, pos, next) {
            lost(next, errors)
        } else {
            let named = function(tokens, next, errors, Some(identifier_of(tokens[pos])));
            match named.value {
                Ok(f) => done(
                    StatementView::FunctionDeclaration(Box::new(f)),
                    named.next,
                    named.errors,
                ),
                Err(error) => failed(error, named.next, named.errors),
            }
        },
        Err(error) => failed(error, pos, errors),
    }
}

/// `declaration := 'var' varDecl | 'fun' funDecl | 'class' classDecl
/// | statement`; a `fun` that no name follows starts an expression. After an
/// error the parser goes on where [`synchronize`] says.
#[verifier::opaque]
pub open spec fn declaration(tokens: Seq<Token>, pos: int, errors: Seq<ParseError>) -> Parsed<
    StatementView,
>
    decreases tokens.len() - pos, 22nat,
{
    if !inside(tokens, pos) {
        lost(pos, errors)
    } else {
        let parsed = if tokens[pos].typ == TokenType::VAR {
            var_declaration(tokens, pos + 1, errors)
        } else if tokens[pos].typ == TokenType::CLASS {
            class_declaration(tokens, pos + 1, errors)
        } else if tokens[pos].typ == TokenType::FUN && inside(tokens, pos + 1) && tokens[pos
            + 1].typ == TokenType::IDENTIFIER {
            function_declaration(tokens, pos + 1, errors)
        } else {
            statement(tokens, pos, errors)
        };
        match parsed.value {
            Ok(_) => parsed,
            Err(_) => Parsed { next: synchronize(tokens, parsed.next), ..parsed },
        }
    }
}

/// The statements and the errors of a program.
pub struct Program {
    pub statements: Seq<StatementView>,
    pub errors: Seq<ParseError>,
}

/// `program := declaration* EOF`, from `pos` on, after the statements in
/// `held`. A declaration that cannot be parsed is reported and left out.
#[verifier::opaque]
pub open spec fn program(
    tokens: Seq<Token>,
    pos: int,
    errors: Seq<ParseError>,
    held: Seq<StatementView>,
) -> Program
    decreases tokens.len() - pos,
{
    if !inside(tokens, pos) || tokens[pos].typ == TokenType::EOF {
        Program { statements: held, errors }
    } else {
        let item = declaration(tokens, pos, errors);
        if !onward(tokens, pos, item.next) {
            Program { statements: held, errors: item.errors }
        } else {
            match item.value {
                Ok(statement) => program(tokens, item.next, item.errors, held.push(statement)),
                Err(error) => program(tokens, item.next, item.errors.push(error), held),
            }
        }
    }
}

/// The number of declarations that the parser tries from `pos` on.
pub open spec fn attempted(tokens: Seq<Token>, pos: int, errors: Seq<ParseError>) -> nat
    decreases tokens.len() - pos,
{
    if !inside(tokens, pos) || tokens[pos].typ == TokenType::EOF {
        0
    } else {
        let item = declaration(tokens, pos, errors);
        if !onward(tokens, pos, item.next) {
            0
        } else {
            match item.value {
                Ok(_) => 1 + attempted(tokens, item.next, item.errors),
                Err(error) => 1 + attempted(tokens, item.next, item.errors.push(error)),
            }
        }
    }
}

/// The number of declarations from `pos` on that cannot be parsed.
pub open spec fn refused(tokens: Seq<Token>, pos: int, errors: Seq<ParseError>) -> nat
    decreases tokens.len() - pos,
{
    if !inside(tokens, pos) || tokens[pos].typ == TokenType::EOF {
        0
    } else {
        let item = declaration(tokens, pos, errors);
        if !onward(tokens, pos, item.next) {
            0
        } else {
            match item.value {
                Ok(_) => refused(tokens, item.next, item.errors),
                Err(error) => 1 + refused(tokens, item.next, item.errors.push(error)),
            }
        }
    }
}

/// A program has one statement for each of its declarations that can be
/// parsed: where none is refused, as many statements as declarations.
pub proof fn law_one_statement_for_each_declaration(
    tokens: Seq<Token>,
    pos: int,
    errors: Seq<ParseError>,
    held: Seq<StatementView>,
)
    ensures
        program(tokens, pos, errors, held).statements.len() + refused(tokens, pos, errors)
            == held.len() + attempted(tokens, pos, errors),
        refused(tokens, pos, errors) <= attempted(tokens, pos, errors),
    decreases tokens.len() - pos,
{
    reveal(program);
    if !inside(tokens, pos) || tokens[pos].typ == TokenType::EOF {
    } else {
        let item = declaration(tokens, pos, errors);
        if onward(tokens, pos, item.next) {
            match item.value {
                Ok(statement) => {
                    law_one_statement_for_each_declaration(
                        tokens,
                        item.next,
                        item.errors,
                        held.push(statement),
                    );
                },
                Err(error) => {
                    law_one_statement_for_each_declaration(
                        tokens,
                        item.next,
                        item.errors.push(error),
                        held,
                    );
                },
            }
        }
    }
}

impl Expectation {
    /// What the diagnostic says was expected.
    pub open spec fn text(self) -> Seq<char> {
        match self {
            Expectation::SemicolonAfterVariable => "Expect ';' after variable declaration"@,
            Expectation::SemicolonAfterValue => "Expect ';' after value"@,
            Expectation::SemicolonAfterExpression => "Expect ';' after expression"@,
            Expectation::SemicolonAfterReturn => "Expect ';' after return value"@,
            Expectation::SemicolonAfterLoopCondition => "Expect ';' after loop condition"@,
            Expectation::FunctionName => "Expect function name"@,
            Expectation::ParenAfterFunctionName => "Expect '(' after function name"@,
            Expectation::ParenAfterFun => "Expect '(' after 'fun'"@,
            Expectation::ParenAfterParameters => "Expect ')' after parameters"@,
            Expectation::BraceBeforeFunctionBody => "Expect '{' before function body"@,
            Expectation::ParameterName => "Expect parameter name"@,
            Expectation::ClassName => "Expect class name"@,
            Expectation::BraceBeforeClassBody => "Expect '{' before class body"@,
            Expectation::BraceAfterClassBody => "Expect '}' after class body"@,
            Expectation::MethodName => "Expect method name"@,
            Expectation::ParenAfterIf => "Expect '(' after if"@,
            Expectation::ParenAfterIfCondition => "Expect ')' after if condition"@,
            Expectation::ParenAfterWhile => "Expect '(' after 'while'"@,
            Expectation::ParenAfterWhileCondition => "Expect ')' after while condition"@,
            Expectation::ParenAfterFor => "Expect '(' after 'for'"@,
            Expectation::ParenAfterForClauses => "Expect ')' after 'for'"@,
            Expectation::BraceAfterBlock => "Expect '}' after block"@,
            Expectation::ColonAfterThenBranch =>
                "Expect ':' after then branch of ternary expression"@,
            Expectation::ParenAfterExpression => "Expect ')' after expression"@,
            Expectation::ParenAfterArguments => "Expect ')' after arguments"@,
            Expectation::PropertyName => "Expect property name after '.'"@,
        }
    }

    /// What the diagnostic says was expected, as `&str`.
    pub fn as_str(&self) -> (r: &'static str)
        ensures
            r@ == self.text(),
    {
        match self {
            Expectation::SemicolonAfterVariable => "Expect ';' after variable declaration",
            Expectation::SemicolonAfterValue => "Expect ';' after value",
            Expectation::SemicolonAfterExpression => "Expect ';' after expression",
            Expectation::SemicolonAfterReturn => "Expect ';' after return value",
            Expectation::SemicolonAfterLoopCondition => "Expect ';' after loop condition",
            Expectation::FunctionName => "Expect function name",
            Expectation::ParenAfterFunctionName => "Expect '(' after function name",
            Expectation::ParenAfterFun => "Expect '(' after 'fun'",
            Expectation::ParenAfterParameters => "Expect ')' after parameters",
            Expectation::BraceBeforeFunctionBody => "Expect '{' before function body",
            Expectation::ParameterName => "Expect parameter name",
            Expectation::ClassName => "Expect class name",
            Expectation::BraceBeforeClassBody => "Expect '{' before class body",
            Expectation::BraceAfterClassBody => "Expect '}' after class body",
            Expectation::MethodName => "Expect method name",
            Expectation::ParenAfterIf => "Expect '(' after if",
            Expectation::ParenAfterIfCondition => "Expect ')' after if condition",
            Expectation::ParenAfterWhile => "Expect '(' after 'while'",
            Expectation::ParenAfterWhileCondition => "Expect ')' after while condition",
            Expectation::ParenAfterFor => "Expect '(' after 'for'",
            Expectation::ParenAfterForClauses => "Expect ')' after 'for'",
            Expectation::BraceAfterBlock => "Expect '}' after block",
            Expectation::ColonAfterThenBranch =>
                "Expect ':' after then branch of ternary expression",
            Expectation::ParenAfterExpression => "Expect ')' after expression",
            Expectation::ParenAfterArguments => "Expect ')' after arguments",
            Expectation::PropertyName => "Expect property name after '.'",
        }
    }
}

impl Clone for ParseError {
    fn clone(&self) -> (r: Self)
        ensures
            r == *self,
    {
        match self {
            ParseError::MissingExpr(token) => ParseError::MissingExpr(token.clone()),
            ParseError::MissingVariableName(token) => ParseError::MissingVariableName(
                token.clone(),
            ),
            ParseError::CallArgumentSize(token) => ParseError::CallArgumentSize(token.clone()),
            ParseError::InvalidAssignmentTarget(token) => ParseError::InvalidAssignmentTarget(
                token.clone(),
            ),
            ParseError::MissingToken(token, wanted) => ParseError::MissingToken(
                token.clone(),
                *wanted,
            ),
            ParseError::OutOfTokens => ParseError::OutOfTokens,
        }
    }
}

impl ParseError {
    /// What the diagnostic says, without the full stop.
    pub open spec fn message_text(self) -> Seq<char> {
        match self {
            ParseError::MissingExpr(_) => "Expect expression"@,
            ParseError::MissingVariableName(_) => "Expect variable name"@,
            ParseError::CallArgumentSize(_) => "Can't have more than 255 arguments"@,
            ParseError::InvalidAssignmentTarget(_) => "Invalid assignment target"@,
            ParseError::MissingToken(_, wanted) => wanted.text(),
            ParseError::OutOfTokens => "Unexpected end of input"@,
        }
    }

    /// The line of the token at which the error was found; 0 where there is none.
    pub open spec fn line_spec(self) -> usize {
        match self {
            ParseError::MissingExpr(token) => token.line,
            ParseError::MissingVariableName(token) => token.line,
            ParseError::CallArgumentSize(token) => token.line,
            ParseError::InvalidAssignmentTarget(token) => token.line,
            ParseError::MissingToken(token, _) => token.line,
            ParseError::OutOfTokens => 0,
        }
    }

    /// The characters of the token at which the error was found.
    pub open spec fn lexeme_spec(self) -> Seq<char> {
        match self {
            ParseError::MissingExpr(token) => token.lexeme@,
            ParseError::MissingVariableName(token) => token.lexeme@,
            ParseError::CallArgumentSize(token) => token.lexeme@,
            ParseError::InvalidAssignmentTarget(token) => token.lexeme@,
            ParseError::MissingToken(token, _) => token.lexeme@,
            ParseError::OutOfTokens => Seq::empty(),
        }
    }

    /// The diagnostic line: `[line L] Error at LEXEME: MESSAGE.`
    pub open spec fn display(self) -> Seq<char> {
        crate::common::error::diagnostic(
            self.line_spec(),
            "at "@ + self.lexeme_spec(),
            self.message_text() + "."@,
        )
    }

    /// What the diagnostic says, without the full stop.
    pub fn message(&self) -> (r: String)
        ensures
            r@ == self.message_text(),
    {
        match self {
            ParseError::MissingExpr(_) => String::from_str("Expect expression"),
            ParseError::MissingVariableName(_) => String::from_str("Expect variable name"),
            ParseError::CallArgumentSize(_) => String::from_str(
                "Can't have more than 255 arguments",
            ),
            ParseError::InvalidAssignmentTarget(_) => String::from_str("Invalid assignment target"),
            ParseError::MissingToken(_, wanted) => String::from_str(wanted.as_str()),
            ParseError::OutOfTokens => String::from_str("Unexpected end of input"),
        }
    }

    /// The line of the token at which the error was found; 0 where there is none.
    pub fn line(&self) -> (r: usize)
        ensures
            r == self.line_spec(),
    {
        match self {
            ParseError::MissingExpr(token) => token.line,
            ParseError::MissingVariableName(token) => token.line,
            ParseError::CallArgumentSize(token) => token.line,
            ParseError::InvalidAssignmentTarget(token) => token.line,
            ParseError::MissingToken(token, _) => token.line,
            ParseError::OutOfTokens => 0,
        }
    }

    /// The characters of the token at which the error was found.
    pub fn lexeme(&self) -> (r: String)
        ensures
            r@ == self.lexeme_spec(),
    {
        match self {
            ParseError::MissingExpr(token) => token.lexeme.clone(),
            ParseError::MissingVariableName(token) => token.lexeme.clone(),
            ParseError::CallArgumentSize(token) => token.lexeme.clone(),
            ParseError::InvalidAssignmentTarget(token) => token.lexeme.clone(),
            ParseError::MissingToken(token, _) => token.lexeme.clone(),
            ParseError::OutOfTokens => String::new(),
        }
    }

    /// The diagnostic line of the error.
    pub fn print(&self) -> (r: String)
        ensures
            r@ == self.display(),
    {
        let place = crate::common::text::concatenate("at ", self.lexeme().as_str());
        let text = crate::common::text::concatenate(self.message().as_str(), ".");
        crate::common::error::Error::report(self.line(), place, text)
    }
}

} // verus!
