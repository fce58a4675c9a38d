use super::callable::{Callable, LoxCallable};
use super::class::LoxClass;
use super::environment::EnvironmentView;
use super::function::LoxFunction;
use super::instance::{InstanceHandle, LoxInstanceView};
use crate::ast::expression::{Expression, ExpressionNode, Function, FunctionInfo, Identifier, Variable};
use crate::ast::operators::{BinaryOperator, LogicalOperator, UnaryOperator};
use crate::ast::statement::Statement;
use crate::common::error::{fault, ErrorView};
use crate::common::literal::LiteralView;
use crate::common::number::{
    display_bits, equal_bits, ieee_difference, ieee_from_integer, ieee_product, ieee_quotient,
    ieee_sum, less_bits, negated_bits, Number,
};
use crate::common::text::decimal;
use vstd::prelude::*;

verus! {

/// The most iterations that one `while` loop is given.
pub const MAX_ITERATIONS: usize = usize::MAX;

/// The readings of the wall clock: the reading with number `i` is the one that
/// the `i`-th call of `clock` gets.
pub type Oracle = spec_fn(int) -> i64;

/// Whether the first readings of `oracle` are those of `log`.
pub open spec fn follows(oracle: Oracle, log: Seq<i64>) -> bool {
    forall|i: int| 0 <= i < log.len() ==> #[trigger] oracle(i) == log[i]
}

/// Whether `log` begins with `shorter`.
pub open spec fn extends(log: Seq<i64>, shorter: Seq<i64>) -> bool {
    &&& shorter.len() <= log.len()
    &&& forall|i: int| 0 <= i < shorter.len() ==> #[trigger] shorter[i] == log[i]
}

/// An oracle that follows a log follows every beginning of the log.
pub broadcast proof fn lemma_follows_shorter(oracle: Oracle, shorter: Seq<i64>, log: Seq<i64>)
    requires
        #[trigger] extends(log, shorter),
        #[trigger] follows(oracle, log),
    ensures
        follows(oracle, shorter),
{
    assert forall|i: int| 0 <= i < shorter.len() implies #[trigger] oracle(i) == shorter[i] by {
        assert(shorter[i] == log[i]);
    }
}

/// Everything that a run of a program can change.
pub struct State {
    /// Every scope made so far; the first holds the globals.
    pub environments: Seq<EnvironmentView>,
    /// Every instance made so far.
    pub instances: Seq<LoxInstanceView>,
    /// The place of the current scope among `environments`.
    pub environment: usize,
    /// The lines printed so far.
    pub output: Seq<Seq<char>>,
    /// The number of function and class values made so far.
    pub created: usize,
    /// The readings of the wall clock taken so far.
    pub log: Seq<i64>,
}

/// What evaluating an expression gives.
pub type Value = Result<LiteralView, ErrorView>;

/// What executing a statement gives: nothing, the value of a `return`, or an error.
pub type Completion = Result<Option<LiteralView>, ErrorView>;

impl State {
    /// The scopes are in range, and each scope is younger than the scope around it.
    pub open spec fn wf(self) -> bool {
        &&& self.environments.len() > 0
        &&& self.environment < self.environments.len()
        &&& forall|i: int|
            0 <= i < self.environments.len() ==> match (#[trigger] self.environments[i]).enclosing {
                Some(outer) => outer < i,
                None => true,
            }
    }

    /// The scope reached from scope `from` by going out `depth` times.
    pub open spec fn ancestor(self, from: usize, depth: nat) -> Option<usize>
        decreases depth,
    {
        if from >= self.environments.len() {
            None
        } else if depth == 0 {
            Some(from)
        } else {
            match self.environments[from as int].enclosing {
                Some(outer) => self.ancestor(outer, (depth - 1) as nat),
                None => None,
            }
        }
    }

    /// The scope in which a reference is looked up: the scope that its depth
    /// leads to, or the globals where it has no depth.
    pub open spec fn scope_of(self, variable: Variable) -> Option<usize> {
        match variable.depth {
            Some(depth) => self.ancestor(self.environment, depth as nat),
            None => self.ancestor(0, 0),
        }
    }

    /// The value of a variable.
    pub open spec fn lookup(self, variable: Variable) -> Option<LiteralView> {
        match self.scope_of(variable) {
            Some(scope) => {
                let values = self.environments[scope as int].values;
                if values.contains_key(variable.identifier.name@) {
                    Some(values[variable.identifier.name@])
                } else {
                    None
                }
            },
            None => None,
        }
    }

    /// The state after binding `name` in scope `scope`.
    pub open spec fn bind(self, scope: usize, name: Seq<char>, value: LiteralView) -> State {
        State {
            environments: self.environments.update(
                scope as int,
                EnvironmentView {
                    values: self.environments[scope as int].values.insert(name, value),
                    enclosing: self.environments[scope as int].enclosing,
                },
            ),
            ..self
        }
    }

    /// The state after binding `name` in the current scope.
    pub open spec fn define(self, name: Seq<char>, value: LiteralView) -> State {
        self.bind(self.environment, name, value)
    }

    /// The state after making a scope with the given bindings inside scope
    /// `outer` and entering it.
    pub open spec fn enter(self, outer: usize, values: Map<Seq<char>, LiteralView>) -> State {
        State {
            environments: self.environments.push(EnvironmentView { values, enclosing: Some(outer) }),
            environment: self.environments.len() as usize,
            ..self
        }
    }

    /// The state with `scope` as the current scope.
    pub open spec fn at(self, scope: usize) -> State {
        State { environment: scope, ..self }
    }

    /// The state after leaving the scopes that were entered since `before`:
    /// the current scope is again that of `before`. Where no function and no
    /// class was made since then, no value can refer to a scope made since
    /// then, and those scopes are given up; else they stay.
    pub open spec fn leave(self, before: State) -> State {
        State {
            environment: before.environment,
            environments: if self.created == before.created && self.created < usize::MAX
                && before.environments.len() <= self.environments.len() {
                self.environments.subrange(0, before.environments.len() as int)
            } else {
                self.environments
            },
            ..self
        }
    }

    /// The state after printing a line.
    pub open spec fn print(self, line: Seq<char>) -> State {
        State { output: self.output.push(line), ..self }
    }

    /// The state after one more function or class value was made.
    pub open spec fn count(self) -> State {
        State {
            created: if self.created < usize::MAX {
                (self.created + 1) as usize
            } else {
                self.created
            },
            ..self
        }
    }
}

/// The value of `-x` or `!x`; `line` is the line of the operand.
pub open spec fn unary_value(operator: UnaryOperator, operand: LiteralView, line: usize) -> Value {
    match operator {
        UnaryOperator::MINUS => match operand {
            LiteralView::Number(n) => Ok(LiteralView::Number(Number { bits: negated_bits(n.bits) })),
            _ => Err(fault("Operand must be a number."@, line)),
        },
        UnaryOperator::BANG => match operand {
            LiteralView::Boolean(b) => Ok(LiteralView::Boolean(!b)),
            _ => Err(fault("Operand must be a boolean."@, line)),
        },
    }
}

/// The value of `a + b`.
pub open spec fn sum_value(left: LiteralView, right: LiteralView, line: usize) -> Value {
    match (left, right) {
        (LiteralView::Number(a), LiteralView::Number(b)) => Ok(
            LiteralView::Number(Number { bits: ieee_sum(a.bits, b.bits) }),
        ),
        (LiteralView::String(a), LiteralView::String(b)) => Ok(LiteralView::String(a + b)),
        (LiteralView::Number(a), LiteralView::String(b)) => Ok(
            LiteralView::String(display_bits(a.bits) + b),
        ),
        (LiteralView::String(a), LiteralView::Number(b)) => Ok(
            LiteralView::String(a + display_bits(b.bits)),
        ),
        _ => Err(fault("Operands must be numbers or strings."@, line)),
    }
}

/// The value of `a - b`, `a * b`, `a / b` or a comparison of two numbers.
pub open spec fn numeric_value(operator: BinaryOperator, a: u64, b: u64, line: usize) -> Value {
    match operator {
        BinaryOperator::MINUS => Ok(LiteralView::Number(Number { bits: ieee_difference(a, b) })),
        BinaryOperator::STAR => Ok(LiteralView::Number(Number { bits: ieee_product(a, b) })),
        BinaryOperator::SLASH => if equal_bits(b, 0) {
            Err(fault("Cannot divide by zero."@, line))
        } else {
            Ok(LiteralView::Number(Number { bits: ieee_quotient(a, b) }))
        },
        BinaryOperator::GREATER => Ok(LiteralView::Boolean(less_bits(b, a))),
        BinaryOperator::GREATEREQUAL => Ok(
            LiteralView::Boolean(less_bits(b, a) || equal_bits(b, a)),
        ),
        BinaryOperator::LESS => Ok(LiteralView::Boolean(less_bits(a, b))),
        _ => Ok(LiteralView::Boolean(less_bits(a, b) || equal_bits(a, b))),
    }
}

/// Whether `a == b`, for two numbers, two booleans or two strings.
pub open spec fn equality_value(left: LiteralView, right: LiteralView, line: usize) -> Result<
    bool,
    ErrorView,
> {
    match (left, right) {
        (LiteralView::Number(a), LiteralView::Number(b)) => Ok(equal_bits(a.bits, b.bits)),
        (LiteralView::Boolean(a), LiteralView::Boolean(b)) => Ok(a == b),
        (LiteralView::String(a), LiteralView::String(b)) => Ok(a == b),
        _ => Err(fault("Operands must be strings, numbers or booleans."@, line)),
    }
}

/// The value of a binary expression whose operands have the given values;
/// `line` is the line of the left operand.
pub open spec fn binary_value(
    operator: BinaryOperator,
    left: LiteralView,
    right: LiteralView,
    line: usize,
) -> Value {
    match operator {
        BinaryOperator::PLUS => sum_value(left, right, line),
        BinaryOperator::EQUALEQUAL => match equality_value(left, right, line) {
            Ok(same) => Ok(LiteralView::Boolean(same)),
            Err(error) => Err(error),
        },
        BinaryOperator::BANGEQUAL => match equality_value(left, right, line) {
            Ok(same) => Ok(LiteralView::Boolean(!same)),
            Err(error) => Err(error),
        },
        BinaryOperator::COMMA => match right {
            LiteralView::Number(_) | LiteralView::String(_) | LiteralView::Boolean(_) => Ok(right),
            _ => Err(fault("Operands must be strings, numbers or booleans."@, line)),
        },
        _ => match (left, right) {
            (LiteralView::Number(a), LiteralView::Number(b)) => numeric_value(
                operator,
                a.bits,
                b.bits,
                line,
            ),
            _ => Err(fault("Operands must be numbers."@, line)),
        },
    }
}

/// The message for a call with the wrong number of arguments.
pub open spec fn arity_message(expected: nat, got: nat) -> Seq<char> {
    "Expected "@ + decimal(expected) + " arguments but got "@ + decimal(got) + "."@
}

/// The bindings of the first `count` parameters to the arguments at the same
/// places; where a name occurs twice, the later parameter counts.
pub open spec fn parameter_bindings(
    parameters: Seq<Identifier>,
    arguments: Seq<LiteralView>,
    count: int,
) -> Map<Seq<char>, LiteralView>
    decreases count,
{
    if count <= 0 {
        Map::empty()
    } else {
        parameter_bindings(parameters, arguments, count - 1).insert(
            parameters[count - 1].name@,
            arguments[count - 1],
        )
    }
}

/// The state in which a program starts: one scope, which binds `clock`.
pub open spec fn initial_state() -> State {
    State {
        environments: seq![
            EnvironmentView {
                values: Map::<Seq<char>, LiteralView>::empty().insert(
                    "clock"@,
                    LiteralView::Callable(Callable::Builtin(super::builtins::Clock)),
                ),
                enclosing: None,
            },
        ],
        instances: Seq::empty(),
        environment: 0,
        output: Seq::empty(),
        created: 0,
        log: Seq::empty(),
    }
}

/// The value of the expression `node` in `state`, and the state after it.
///
/// `depth` is the number of calls of functions of the program that may still
/// be nested; `oracle` gives the readings of the wall clock.
pub open spec fn evaluate(state: State, node: ExpressionNode, depth: usize, oracle: Oracle) -> (
    State,
    Value,
)
    decreases depth, node, 1nat,
{
    match node.expr {
        Expression::Literal(literal) => (state, Ok(literal@)),
        Expression::Grouping(inner) => evaluate(state, *inner, depth, oracle),
        Expression::Unary(operator, operand) => {
            let (after, value) = evaluate(state, *operand, depth, oracle);
            match value {
                Ok(v) => (after, unary_value(operator, v, operand.line)),
                Err(error) => (after, Err(error)),
            }
        },
        Expression::BinaryExpression(left, operator, right) => {
            let (middle, first) = evaluate(state, *left, depth, oracle);
            match first {
                Ok(a) => {
                    let (after, second) = evaluate(middle, *right, depth, oracle);
                    match second {
                        Ok(b) => (after, binary_value(operator, a, b, left.line)),
                        Err(error) => (after, Err(error)),
                    }
                },
                Err(error) => (middle, Err(error)),
            }
        },
        Expression::TernaryExpression(condition, _, first, second) => {
            let (middle, value) = evaluate(state, *condition, depth, oracle);
            match value {
                Ok(LiteralView::Boolean(true)) => evaluate(middle, *first, depth, oracle),
                Ok(LiteralView::Boolean(false)) => evaluate(middle, *second, depth, oracle),
                Ok(_) => (middle, Err(fault("Expression must evaluate to boolean"@, condition.line))),
                Err(error) => (middle, Err(error)),
            }
        },
        Expression::Or(left, operator, right) | Expression::And(left, operator, right) => {
            let (middle, value) = evaluate(state, *left, depth, oracle);
            match value {
                Ok(v) => {
                    let decided = match operator {
                        LogicalOperator::OR => v.is_truthy(),
                        LogicalOperator::AND => !v.is_truthy(),
                    };
                    if decided {
                        (middle, Ok(v))
                    } else {
                        evaluate(middle, *right, depth, oracle)
                    }
                },
                Err(error) => (middle, Err(error)),
            }
        },
        Expression::Variable(variable) => match state.lookup(variable) {
            Some(value) => (state, Ok(value)),
            None => (
                state,
                Err(fault("Variable must be defined before referenced"@, variable.identifier.line)),
            ),
        },
        Expression::Assignment(variable, source) => {
            let (after, value) = evaluate(state, *source, depth, oracle);
            match value {
                Ok(v) => match after.lookup(variable) {
                    Some(previous) => (
                        after.bind(after.scope_of(variable).unwrap(), variable.identifier.name@, v),
                        Ok(previous),
                    ),
                    None => (after, Err(fault("Undefined variable."@, source.line))),
                },
                Err(error) => (after, Err(error)),
            }
        },
        Expression::FunctionExpression(function) => (
            state.count(),
            Ok(
                LiteralView::Callable(
                    Callable::Function(
                        LoxFunction {
                            function: Function::Expression(function),
                            closure: state.environment,
                            id: state.created,
                        },
                    ),
                ),
            ),
        ),
        Expression::GetExpression(name, object) => {
            let (after, value) = evaluate(state, *object, depth, oracle);
            match value {
                Ok(LiteralView::Instance(handle)) => if handle.index < after.instances.len()
                    && after.instances[handle.index as int].fields.contains_key(name.name@) {
                    (after, Ok(after.instances[handle.index as int].fields[name.name@]))
                } else {
                    (after, Err(fault("Undefined property."@, name.line)))
                },
                Ok(_) => (after, Err(fault("Only instances have properties."@, name.line))),
                Err(error) => (after, Err(error)),
            }
        },
        Expression::SetExpression(object, name, source) => {
            let (middle, target) = evaluate(state, *object, depth, oracle);
            match target {
                Ok(LiteralView::Instance(handle)) => {
                    let (after, value) = evaluate(middle, *source, depth, oracle);
                    match value {
                        Ok(v) => if handle.index < after.instances.len() {
                            (
                                State {
                                    instances: after.instances.update(
                                        handle.index as int,
                                        LoxInstanceView {
                                            class: after.instances[handle.index as int].class,
                                            fields: after.instances[handle.index as int].fields.insert(
                                                name.name@,
                                                v,
                                            ),
                                        },
                                    ),
                                    ..after
                                },
                                Ok(v),
                            )
                        } else {
                            (after, Err(fault("Undefined property."@, name.line)))
                        },
                        Err(error) => (after, Err(error)),
                    }
                },
                Ok(_) => (middle, Err(fault("Only instances have fields."@, name.line))),
                Err(error) => (middle, Err(error)),
            }
        },
        Expression::CallExpression(callee, _, arguments) => {
            let (middle, target) = evaluate(state, *callee, depth, oracle);
            match target {
                Ok(callable) => if callable is Callable || callable is Class {
                    let (after, values) = evaluate_arguments(
                        middle,
                        arguments@,
                        0,
                        Seq::empty(),
                        depth,
                        oracle,
                    );
                    match values {
                        Ok(given) => invoke(after, node, callable, given, depth, oracle),
                        Err(error) => (after, Err(error)),
                    }
                } else {
                    (middle, Err(fault("Can only call functions and classes."@, node.line)))
                },
                Err(error) => (middle, Err(error)),
            }
        },
    }
}

/// The values of the arguments from `from` on, after those in `done`, from
/// left to right.
pub open spec fn evaluate_arguments(
    state: State,
    arguments: Seq<ExpressionNode>,
    from: int,
    done: Seq<LiteralView>,
    depth: usize,
    oracle: Oracle,
) -> (State, Result<Seq<LiteralView>, ErrorView>)
    decreases depth, arguments, arguments.len() - from,
{
    if 0 <= from < arguments.len() {
        let (after, value) = evaluate(state, arguments[from], depth, oracle);
        match value {
            Ok(v) => evaluate_arguments(after, arguments, from + 1, done.push(v), depth, oracle),
            Err(error) => (after, Err(error)),
        }
    } else {
        (state, Ok(done))
    }
}

/// The result of the call `node`, whose callee has the value `target` and
/// whose arguments have the values `given`.
pub open spec fn invoke(
    state: State,
    node: ExpressionNode,
    target: LiteralView,
    given: Seq<LiteralView>,
    depth: usize,
    oracle: Oracle,
) -> (State, Value)
    decreases depth, node, 0nat,
{
    match target {
        LiteralView::Class(class) => if given.len() != 0 {
            (state, Err(fault(arity_message(0, given.len()), node.line)))
        } else {
            (
                State {
                    instances: state.instances.push(
                        LoxInstanceView { class, fields: Map::empty() },
                    ),
                    ..state
                },
                Ok(
                    LiteralView::Instance(
                        InstanceHandle { class, index: state.instances.len() as usize },
                    ),
                ),
            )
        },
        LiteralView::Callable(Callable::Builtin(_)) => if given.len() != 0 {
            (state, Err(fault(arity_message(0, given.len()), node.line)))
        } else {
            (
                State { log: state.log.push(oracle(state.log.len() as int)), ..state },
                Ok(
                    LiteralView::Number(
                        Number { bits: ieee_from_integer(oracle(state.log.len() as int)) },
                    ),
                ),
            )
        },
        LiteralView::Callable(Callable::Function(function)) => {
            let parameters = function.function.parameters_spec();
            if given.len() != parameters.len() {
                (state, Err(fault(arity_message(parameters.len(), given.len()), node.line)))
            } else if depth == 0 {
                (state, Err(fault("Stack overflow."@, node.line)))
            } else if function.closure >= state.environments.len() {
                (state, Err(fault("Can only call functions and classes."@, node.line)))
            } else {
                let frame = state.enter(
                    function.closure,
                    parameter_bindings(parameters, given, parameters.len() as int),
                );
                let (after, completion) = execute_block(
                    frame,
                    function.function.body_spec(),
                    0,
                    (depth - 1) as usize,
                    oracle,
                );
                (
                    after.leave(state),
                    match completion {
                        Ok(Some(value)) => Ok(value),
                        Ok(None) => Ok(LiteralView::Nil),
                        Err(error) => Err(error),
                    },
                )
            }
        },
        _ => (state, Err(fault("Can only call functions and classes."@, node.line))),
    }
}

/// What executing the statements from `from` on gives: they run in order
/// until one returns or fails.
pub open spec fn execute_block(
    state: State,
    statements: Seq<Statement>,
    from: int,
    depth: usize,
    oracle: Oracle,
) -> (State, Completion)
    decreases depth, statements, statements.len() - from,
{
    if 0 <= from < statements.len() {
        let (after, completion) = execute(state, statements[from], depth, oracle);
        match completion {
            Ok(None) => execute_block(after, statements, from + 1, depth, oracle),
            _ => (after, completion),
        }
    } else {
        (state, Ok(None))
    }
}

/// What the loop `statement` gives when it may still run `left` times.
pub open spec fn execute_while(
    state: State,
    statement: Statement,
    left: nat,
    depth: usize,
    oracle: Oracle,
) -> (State, Completion)
    decreases depth, statement, left,
{
    match statement {
        Statement::WhileStatement(condition, body) => {
            let (middle, value) = evaluate(state, *condition, depth, oracle);
            match value {
                Ok(v) => if !v.is_truthy() {
                    (middle, Ok(None))
                } else if left == 0 {
                    (middle, Err(fault("Loop ran too long."@, condition.line)))
                } else {
                    let (after, completion) = execute(middle, *body, depth, oracle);
                    match completion {
                        Ok(None) => execute_while(after, statement, (left - 1) as nat, depth, oracle),
                        _ => (after, completion),
                    }
                },
                Err(error) => (middle, Err(error)),
            }
        },
        _ => (state, Ok(None)),
    }
}

/// What executing `statement` in `state` gives, and the state after it.
pub open spec fn execute(state: State, statement: Statement, depth: usize, oracle: Oracle) -> (
    State,
    Completion,
)
    decreases depth, statement, MAX_ITERATIONS + 1,
{
    match statement {
        Statement::ExpressionStatement(expression) => {
            let (after, value) = evaluate(state, *expression, depth, oracle);
            match value {
                Ok(_) => (after, Ok(None)),
                Err(error) => (after, Err(error)),
            }
        },
        Statement::PrintStatement(expression) => {
            let (after, value) = evaluate(state, *expression, depth, oracle);
            match value {
                Ok(v) => (after.print(v.display()), Ok(None)),
                Err(error) => (after, Err(error)),
            }
        },
        Statement::VariableDeclaration(name, initializer) => match initializer {
            Some(expression) => {
                let (after, value) = evaluate(state, *expression, depth, oracle);
                match value {
                    Ok(v) => (after.define(name.name@, v), Ok(None)),
                    Err(error) => (after, Err(error)),
                }
            },
            None => (state.define(name.name@, LiteralView::Nil), Ok(None)),
        },
        Statement::BlockStatement(statements) => {
            let (after, completion) = execute_block(
                state.enter(state.environment, Map::empty()),
                statements@,
                0,
                depth,
                oracle,
            );
            (after.leave(state), completion)
        },
        Statement::IfStatement(condition, then_branch, else_branch) => {
            let (middle, value) = evaluate(state, *condition, depth, oracle);
            match value {
                Ok(v) => if v.is_truthy() {
                    execute(middle, *then_branch, depth, oracle)
                } else {
                    match else_branch {
                        Some(branch) => execute(middle, *branch, depth, oracle),
                        None => (middle, Ok(None)),
                    }
                },
                Err(error) => (middle, Err(error)),
            }
        },
        Statement::WhileStatement(_, _) => execute_while(
            state,
            statement,
            MAX_ITERATIONS as nat,
            depth,
            oracle,
        ),
        Statement::FunctionDeclaration(declaration) => (
            state.count().define(
                declaration.identifier.name@,
                LiteralView::Callable(
                    Callable::Function(
                        LoxFunction {
                            function: Function::Declaration(declaration),
                            closure: state.environment,
                            id: state.created,
                        },
                    ),
                ),
            ),
            Ok(None),
        ),
        Statement::ClassDeclaration(name, methods) => (
            state.count().define(
                name.name@,
                LiteralView::Class(LoxClass { name: name.name, methods, id: state.created }),
            ),
            Ok(None),
        ),
        Statement::ReturnStatement(_, value) => match value {
            Some(expression) => {
                let (after, result) = evaluate(state, *expression, depth, oracle);
                match result {
                    Ok(v) => (after, Ok(Some(v))),
                    Err(error) => (after, Err(error)),
                }
            },
            None => (state, Ok(Some(LiteralView::Nil))),
        },
    }
}

/// `and` does not evaluate its right operand where the left one is not
/// truthy: the whole gives what the left operand gives, value and state.
pub proof fn law_and_short_circuit(
    state: State,
    node: ExpressionNode,
    left: ExpressionNode,
    right: ExpressionNode,
    depth: usize,
    oracle: Oracle,
)
    requires
        node.expr == Expression::And(Box::new(left), LogicalOperator::AND, Box::new(right)),
        match evaluate(state, left, depth, oracle).1 {
            Ok(value) => !value.is_truthy(),
            Err(_) => false,
        },
    ensures
        evaluate(state, node, depth, oracle) == evaluate(state, left, depth, oracle),
{
}

/// `or` does not evaluate its right operand where the left one is truthy:
/// the whole gives what the left operand gives, value and state.
pub proof fn law_or_short_circuit(
    state: State,
    node: ExpressionNode,
    left: ExpressionNode,
    right: ExpressionNode,
    depth: usize,
    oracle: Oracle,
)
    requires
        node.expr == Expression::Or(Box::new(left), LogicalOperator::OR, Box::new(right)),
        match evaluate(state, left, depth, oracle).1 {
            Ok(value) => value.is_truthy(),
            Err(_) => false,
        },
    ensures
        evaluate(state, node, depth, oracle) == evaluate(state, left, depth, oracle),
{
}

/// A function runs in the scope that it was made in, wherever it is called
/// from: two calls of one function value with the same arguments, from two
/// current scopes and at two places of the program, run the body in the same
/// frame and give the same value, and leave states that differ in the
/// current scope alone. Each call comes back to the scope it was made from.
pub proof fn law_call_uses_captured_scope(
    state: State,
    first: ExpressionNode,
    second: ExpressionNode,
    here: usize,
    there: usize,
    function: LoxFunction,
    given: Seq<LiteralView>,
    depth: usize,
    oracle: Oracle,
)
    requires
        given.len() == function.function.parameters_spec().len(),
        depth > 0,
        function.closure < state.environments.len(),
    ensures
        ({
            let target = LiteralView::Callable(Callable::Function(function));
            let one = invoke(state.at(here), first, target, given, depth, oracle);
            let two = invoke(state.at(there), second, target, given, depth, oracle);
            &&& one.1 == two.1
            &&& one.0.at(0) == two.0.at(0)
            &&& one.0.environment == here
            &&& two.0.environment == there
        }),
{
    let target = LiteralView::Callable(Callable::Function(function));
    let bindings = parameter_bindings(
        function.function.parameters_spec(),
        given,
        function.function.parameters_spec().len() as int,
    );
    assert(state.at(here).enter(function.closure, bindings) == state.at(there).enter(
        function.closure,
        bindings,
    ));
}

/// The scope that a call of a function enters lies inside the scope that the
/// function was made in.
pub proof fn law_frame_is_inside_closure(
    state: State,
    function: LoxFunction,
    values: Map<Seq<char>, LiteralView>,
)
    requires
        state.wf(),
        state.environments.len() < usize::MAX,
        function.closure < state.environments.len(),
    ensures
        ({
            let frame = state.enter(function.closure, values);
            &&& frame.wf()
            &&& frame.environments[frame.environment as int].enclosing == Some(function.closure)
            &&& frame.ancestor(frame.environment, 1) == Some(function.closure)
        }),
{
    let frame = state.enter(function.closure, values);
    assert(frame.environments.len() == state.environments.len() + 1);
    assert forall|i: int| 0 <= i < frame.environments.len() implies match (
    #[trigger] frame.environments[i]).enclosing {
        Some(outer) => outer < i,
        None => true,
    } by {
        if i < state.environments.len() {
            assert(frame.environments[i] == state.environments[i]);
        }
    }
    reveal_with_fuel(State::ancestor, 2);
}

} // verus!
