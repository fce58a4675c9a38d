use super::builtins::Clock;
use super::callable::{Callable, LoxCallable};
use super::class::LoxClass;
use super::environment::Environment;
use super::function::LoxFunction;
use super::instance::{InstanceHandle, LoxInstance};
use super::semantics::{
    arity_message, binary_value, equality_value, evaluate, evaluate_arguments, execute,
    execute_block, execute_while, extends, follows, initial_state, invoke,
    lemma_follows_shorter, numeric_value, parameter_bindings, sum_value, unary_value, Completion,
    Oracle, State, Value, MAX_ITERATIONS,
};
use crate::ast::expression::{
    Expression, ExpressionNode, Function, FunctionInfo, Identifier, Variable,
};
use crate::ast::operators::{BinaryOperator, LogicalOperator, UnaryOperator};
use crate::ast::statement::Statement;
use crate::common::error::{fault, Error, ErrorView};
use crate::common::literal::{views, Literal, LiteralView};
use crate::common::number::Number;
use crate::common::text::{concatenate, from_chars, push_decimal, push_str};
use vstd::prelude::*;

verus! {

broadcast use lemma_follows_shorter;

/// The evaluator: the scopes and instances of a running program, the lines it
/// has printed, and the readings of the wall clock that it has taken.
pub struct Interpreter {
    /// Every scope made so far; the first holds the globals.
    pub environments: Vec<Environment>,
    /// Every instance made so far.
    pub instances: Vec<LoxInstance>,
    /// The place of the current scope among `environments`.
    pub environment: usize,
    /// The lines printed and not yet taken.
    pub output: Vec<String>,
    /// The number of function and class values made so far.
    pub created: usize,
    /// The readings of the wall clock taken so far.
    pub log: Ghost<Seq<i64>>,
}

impl View for Interpreter {
    type V = State;

    open spec fn view(&self) -> State {
        State {
            environments: self.environments@.map_values(|e: Environment| e@),
            instances: self.instances@.map_values(|i: LoxInstance| i@),
            environment: self.environment,
            output: self.output@.map_values(|line: String| line@),
            created: self.created,
            log: self.log@,
        }
    }
}

/// The view of the result of an evaluation.
pub open spec fn value_view(result: Result<Literal, Error>) -> Value {
    match result {
        Ok(value) => Ok(value@),
        Err(error) => Err(error@),
    }
}

/// The view of the result of an execution.
pub open spec fn completion_view(result: Result<Option<Literal>, Error>) -> Completion {
    match result {
        Ok(Some(value)) => Ok(Some(value@)),
        Ok(None) => Ok(None),
        Err(error) => Err(error@),
    }
}

/// Whether evaluating `node` in `before` gives `result` and leaves `after`,
/// whatever the wall clock shows later on.
pub open spec fn evaluates(
    before: State,
    node: ExpressionNode,
    depth: usize,
    after: State,
    result: Value,
) -> bool {
    &&& extends(after.log, before.log)
    &&& before.environments.len() <= after.environments.len()
    &&& forall|oracle: Oracle| #[trigger]
        follows(oracle, after.log) ==> evaluate(before, node, depth, oracle) == (after, result)
}

/// Whether executing `statement` in `before` gives `result` and leaves `after`,
/// whatever the wall clock shows later on.
pub open spec fn executes(
    before: State,
    statement: Statement,
    depth: usize,
    after: State,
    result: Completion,
) -> bool {
    &&& extends(after.log, before.log)
    &&& before.environments.len() <= after.environments.len()
    &&& forall|oracle: Oracle| #[trigger]
        follows(oracle, after.log) ==> execute(before, statement, depth, oracle) == (after, result)
}

/// Applies `-` or `!` to a value; `line` is the line of the operand.
pub fn apply_unary(operator: UnaryOperator, operand: Literal, line: usize) -> (r: Result<
    Literal,
    Error,
>)
    ensures
        value_view(r) == unary_value(operator, operand@, line),
{
    match operator {
        UnaryOperator::MINUS => match operand {
            Literal::Number(n) => Ok(Literal::Number(n.negate())),
            _ => Err(Error::with_message(line, "Operand must be a number.")),
        },
        UnaryOperator::BANG => match operand {
            Literal::Boolean(b) => Ok(Literal::Boolean(!b)),
            _ => Err(Error::with_message(line, "Operand must be a boolean.")),
        },
    }
}

/// Applies `+` to two values.
pub fn apply_sum(left: Literal, right: Literal, line: usize) -> (r: Result<Literal, Error>)
    ensures
        value_view(r) == sum_value(left@, right@, line),
{
    match (left, right) {
        (Literal::Number(a), Literal::Number(b)) => Ok(Literal::Number(a.add(&b))),
        (Literal::String(a), Literal::String(b)) => Ok(
            Literal::String(concatenate(a.as_str(), b.as_str())),
        ),
        (Literal::Number(a), Literal::String(b)) => {
            let text = a.to_string();
            Ok(Literal::String(concatenate(text.as_str(), b.as_str())))
        },
        (Literal::String(a), Literal::Number(b)) => {
            let text = b.to_string();
            Ok(Literal::String(concatenate(a.as_str(), text.as_str())))
        },
        _ => Err(Error::with_message(line, "Operands must be numbers or strings.")),
    }
}

/// Applies `-`, `*`, `/` or a comparison to two numbers.
pub fn apply_numeric(operator: BinaryOperator, a: Number, b: Number, line: usize) -> (r: Result<
    Literal,
    Error,
>)
    ensures
        value_view(r) == numeric_value(operator, a.bits, b.bits, line),
{
    match operator {
        BinaryOperator::MINUS => Ok(Literal::Number(a.subtract(&b))),
        BinaryOperator::STAR => Ok(Literal::Number(a.multiply(&b))),
        BinaryOperator::SLASH => {
            if b.equals(&Number::zero()) {
                Err(Error::with_message(line, "Cannot divide by zero."))
            } else {
                Ok(Literal::Number(a.divide(&b)))
            }
        },
        BinaryOperator::GREATER => Ok(Literal::Boolean(b.less_than(&a))),
        BinaryOperator::GREATEREQUAL => Ok(Literal::Boolean(b.less_or_equal(&a))),
        BinaryOperator::LESS => Ok(Literal::Boolean(a.less_than(&b))),
        _ => Ok(Literal::Boolean(a.less_or_equal(&b))),
    }
}

/// Tests two values for `==`.
pub fn apply_equality(left: &Literal, right: &Literal, line: usize) -> (r: Result<bool, Error>)
    ensures
        match r {
            Ok(same) => equality_value(left@, right@, line) == Ok::<bool, ErrorView>(same),
            Err(error) => equality_value(left@, right@, line) == Err::<bool, ErrorView>(error@),
        },
{
    match (left, right) {
        (Literal::Number(a), Literal::Number(b)) => Ok(a.equals(b)),
        (Literal::Boolean(a), Literal::Boolean(b)) => Ok(*a == *b),
        (Literal::String(a), Literal::String(b)) => Ok(*a == *b),
        _ => Err(Error::with_message(line, "Operands must be strings, numbers or booleans.")),
    }
}

/// Applies a binary operator to the values of its operands; `line` is the
/// line of the left operand.
pub fn apply_binary(operator: BinaryOperator, left: Literal, right: Literal, line: usize) -> (r:
    Result<Literal, Error>)
    ensures
        value_view(r) == binary_value(operator, left@, right@, line),
{
    match operator {
        BinaryOperator::PLUS => apply_sum(left, right, line),
        BinaryOperator::EQUALEQUAL => match apply_equality(&left, &right, line) {
            Ok(same) => Ok(Literal::Boolean(same)),
            Err(error) => Err(error),
        },
        BinaryOperator::BANGEQUAL => match apply_equality(&left, &right, line) {
            Ok(same) => Ok(Literal::Boolean(!same)),
            Err(error) => Err(error),
        },
        BinaryOperator::COMMA => match right {
            Literal::Number(n) => Ok(Literal::Number(n)),
            Literal::String(text) => Ok(Literal::String(text)),
            Literal::Boolean(b) => Ok(Literal::Boolean(b)),
            _ => Err(Error::with_message(line, "Operands must be strings, numbers or booleans.")),
        },
        _ => match (left, right) {
            (Literal::Number(a), Literal::Number(b)) => apply_numeric(operator, a, b, line),
            _ => Err(Error::with_message(line, "Operands must be numbers.")),
        },
    }
}

/// The error for a call with the wrong number of arguments.
pub fn arity_error(expected: usize, got: usize, line: usize) -> (r: Error)
    ensures
        r@ == fault(arity_message(expected as nat, got as nat), line),
{
    let mut out: Vec<char> = Vec::new();
    push_str(&mut out, "Expected ");
    push_decimal(&mut out, expected);
    push_str(&mut out, " arguments but got ");
    push_decimal(&mut out, got);
    push_str(&mut out, ".");
    assert(out@ =~= arity_message(expected as nat, got as nat));
    Error::new(line, from_chars(out.as_slice()))
}

impl Interpreter {
    /// The state is well formed, and so is every scope and every instance.
    pub open spec fn wf(&self) -> bool {
        &&& self@.wf()
        &&& forall|i: int|
            0 <= i < self.environments@.len() ==> (#[trigger] self.environments@[i]).wf()
        &&& forall|i: int| 0 <= i < self.instances@.len() ==> (#[trigger] self.instances@[i]).wf()
    }

    /// An interpreter whose globals bind `clock`.
    pub fn new() -> (r: Self)
        ensures
            r.wf(),
            r@ == initial_state(),
    {
        let mut globals = Environment::new();
        globals.define(String::from_str("clock"), Literal::Callable(Callable::Builtin(Clock)));
        let mut environments: Vec<Environment> = Vec::new();
        environments.push(globals);
        let r = Interpreter {
            environments,
            instances: Vec::new(),
            environment: 0,
            output: Vec::new(),
            created: 0,
            log: Ghost(Seq::empty()),
        };
        assert(r@.environments =~= initial_state().environments);
        assert(r@.instances =~= initial_state().instances);
        assert(r@.output =~= initial_state().output);
        r
    }

    /// The scope of the globals.
    pub fn globals(&self) -> (r: &Environment)
        requires
            self.wf(),
        ensures
            r@ == self@.environments[0],
    {
        &self.environments[0]
    }

    /// The lines printed since the last call, which are handed over.
    pub fn take_output(&mut self) -> (lines: Vec<String>)
        requires
            old(self).wf(),
        ensures
            final(self).wf(),
            lines@.map_values(|line: String| line@) == old(self)@.output,
            final(self)@ == (State { output: Seq::empty(), ..old(self)@ }),
    {
        let mut lines: Vec<String> = Vec::new();
        std::mem::swap(&mut lines, &mut self.output);
        assert(final(self)@.output =~= Seq::<Seq<char>>::empty());
        lines
    }

    /// The scope reached from scope `from` by going out `depth` times.
    pub fn ancestor(&self, from: usize, depth: usize) -> (r: Option<usize>)
        requires
            self.wf(),
        ensures
            r == self@.ancestor(from, depth as nat),
            r.is_some() ==> r.unwrap() < self.environments@.len(),
    {
        let mut scope: usize = from;
        let mut left: usize = depth;
        while left > 0
            invariant
                self.wf(),
                self@.ancestor(from, depth as nat) == self@.ancestor(scope, left as nat),
            decreases left,
        {
            if scope >= self.environments.len() {
                return None;
            }
            match self.environments[scope].enclosing {
                Some(outer) => {
                    scope = outer;
                },
                None => {
                    return None;
                },
            }
            left -= 1;
        }
        if scope >= self.environments.len() {
            None
        } else {
            Some(scope)
        }
    }

    /// The scope in which a reference is looked up.
    pub fn scope_of(&self, variable: &Variable) -> (r: Option<usize>)
        requires
            self.wf(),
        ensures
            r == self@.scope_of(*variable),
            r.is_some() ==> r.unwrap() < self.environments@.len(),
    {
        match variable.depth {
            Some(depth) => self.ancestor(self.environment, depth),
            None => self.ancestor(0, 0),
        }
    }

    /// The value of a variable.
    pub fn lookup(&self, variable: &Variable) -> (r: Option<Literal>)
        requires
            self.wf(),
        ensures
            match r {
                Some(value) => self@.lookup(*variable) == Some(value@),
                None => self@.lookup(*variable).is_none(),
            },
    {
        match self.scope_of(variable) {
            Some(scope) => self.environments[scope].get(&variable.identifier.name),
            None => None,
        }
    }

    /// Binds `name` in scope `scope`.
    pub fn bind(&mut self, scope: usize, name: String, value: Literal)
        requires
            old(self).wf(),
            scope < old(self).environments@.len(),
        ensures
            final(self).wf(),
            final(self)@ == old(self)@.bind(scope, name@, value@),
    {
        let environment = &mut self.environments[scope];
        environment.define(name, value);
        proof {
            assert(final(self)@.environments =~= old(self)@.bind(
                scope,
                name@,
                value@,
            ).environments);
            assert(final(self)@.instances =~= old(self)@.instances);
            assert(final(self)@.output =~= old(self)@.output);
        }
    }

    /// Binds `name` in the current scope.
    pub fn define(&mut self, name: String, value: Literal)
        requires
            old(self).wf(),
        ensures
            final(self).wf(),
            final(self)@ == old(self)@.define(name@, value@),
    {
        let scope = self.environment;
        self.bind(scope, name, value);
    }

    /// Adds `environment` to the scopes and makes it the current one.
    pub fn enter(&mut self, environment: Environment)
        requires
            old(self).wf(),
            environment.wf(),
            match environment.enclosing {
                Some(outer) => outer < old(self).environments@.len(),
                None => false,
            },
        ensures
            final(self).wf(),
            final(self)@ == old(self)@.enter(environment.enclosing.unwrap(), environment@.values),
            final(self).environments@.len() == old(self).environments@.len() + 1,
    {
        let place = self.environments.len();
        self.environments.push(environment);
        self.environment = place;
        proof {
            assert(final(self)@.environments =~= old(self)@.enter(
                environment.enclosing.unwrap(),
                environment@.values,
            ).environments);
            assert(final(self)@.instances =~= old(self)@.instances);
            assert(final(self)@.output =~= old(self)@.output);
        }
    }

    /// Comes back to the scope `scope` after the scopes from `count` on were
    /// entered; `created` is the number of function and class values made
    /// before that. Where none was made since, the scopes from `count` on are
    /// given up.
    pub fn leave(&mut self, scope: usize, count: usize, created: usize)
        requires
            old(self).wf(),
            scope < count <= old(self).environments@.len(),
        ensures
            final(self).wf(),
            final(self).environments@.len() >= count,
            final(self)@ == (State {
                environment: scope,
                environments: if old(self)@.created == created && created < usize::MAX {
                    old(self)@.environments.subrange(0, count as int)
                } else {
                    old(self)@.environments
                },
                ..old(self)@
            }),
    {
        self.environment = scope;
        if self.created == created && created < usize::MAX {
            self.environments.truncate(count);
            assert(final(self)@.environments =~= old(self)@.environments.subrange(0, count as int));
        } else {
            assert(final(self)@.environments =~= old(self)@.environments);
        }
        assert(final(self)@.instances =~= old(self)@.instances);
        assert(final(self)@.output =~= old(self)@.output);
    }

    /// The number of the next function or class value.
    pub fn next_id(&mut self) -> (id: usize)
        requires
            old(self).wf(),
        ensures
            final(self).wf(),
            id == old(self)@.created,
            final(self)@ == old(self)@.count(),
    {
        let id = self.created;
        if self.created < usize::MAX {
            self.created = self.created + 1;
        }
        id
    }

    /// Gives a variable a new value, and returns the value it held before.
    pub fn assign(&mut self, variable: &Variable, value: Literal) -> (r: Option<Literal>)
        requires
            old(self).wf(),
        ensures
            final(self).wf(),
            final(self).environments@.len() == old(self).environments@.len(),
            match r {
                Some(previous) => old(self)@.lookup(*variable) == Some(previous@) && final(self)@
                    == old(self)@.bind(
                    old(self)@.scope_of(*variable).unwrap(),
                    variable.identifier.name@,
                    value@,
                ),
                None => old(self)@.lookup(*variable).is_none() && final(self)@ == old(self)@,
            },
    {
        match self.scope_of(variable) {
            Some(scope) => {
                let environment = &mut self.environments[scope];
                let previous = environment.assign(&variable.identifier.name, value);
                proof {
                    if previous.is_some() {
                        assert(final(self)@.environments =~= old(self)@.bind(
                            scope,
                            variable.identifier.name@,
                            value@,
                        ).environments);
                    } else {
                        assert(final(self)@.environments =~= old(self)@.environments);
                    }
                    assert(final(self)@.instances =~= old(self)@.instances);
                    assert(final(self)@.output =~= old(self)@.output);
                }
                previous
            },
            None => None,
        }
    }

    /// Evaluates an expression. `depth` is the number of calls of functions
    /// of the program that may still be nested.
    pub fn evaluate(&mut self, node: &ExpressionNode, depth: usize) -> (r: Result<Literal, Error>)
        requires
            old(self).wf(),
        ensures
            final(self).wf(),
            evaluates(old(self)@, *node, depth, final(self)@, value_view(r)),
        decreases depth, node, 2nat,
    {
        match &node.expr {
            Expression::Literal(literal) => Ok(literal.clone()),
            Expression::Grouping(inner) => self.evaluate(inner, depth),
            Expression::Unary(_, _) => self.evaluate_unary(node, depth),
            Expression::BinaryExpression(_, _, _) => self.evaluate_binary(node, depth),
            Expression::TernaryExpression(_, _, _, _) => self.evaluate_ternary(node, depth),
            Expression::Or(_, _, _) => self.evaluate_logical(node, depth),
            Expression::And(_, _, _) => self.evaluate_logical(node, depth),
            Expression::Variable(variable) => match self.lookup(variable) {
                Some(value) => Ok(value),
                None => Err(
                    Error::with_message(
                        variable.identifier.line,
                        "Variable must be defined before referenced",
                    ),
                ),
            },
            Expression::Assignment(_, _) => self.evaluate_assignment(node, depth),
            Expression::FunctionExpression(function) => {
                let closure = self.environment;
                let id = self.next_id();
                Ok(
                    Literal::Callable(
                        Callable::Function(
                            LoxFunction::new(Function::Expression(function.clone()), closure, id),
                        ),
                    ),
                )
            },
            Expression::GetExpression(_, _) => self.evaluate_get(node, depth),
            Expression::SetExpression(_, _, _) => self.evaluate_set(node, depth),
            Expression::CallExpression(_, _, _) => self.evaluate_call(node, depth),
        }
    }

    fn evaluate_unary(&mut self, node: &ExpressionNode, depth: usize) -> (r: Result<Literal, Error>)
        requires
            old(self).wf(),
            node.expr is Unary,
        ensures
            final(self).wf(),
            evaluates(old(self)@, *node, depth, final(self)@, value_view(r)),
        decreases depth, node, 1nat,
    {
        match &node.expr {
            Expression::Unary(operator, operand) => match self.evaluate(operand, depth) {
                Ok(value) => apply_unary(*operator, value, operand.line),
                Err(error) => Err(error),
            },
            _ => unreached(),
        }
    }

    fn evaluate_binary(&mut self, node: &ExpressionNode, depth: usize) -> (r: Result<
        Literal,
        Error,
    >)
        requires
            old(self).wf(),
            node.expr is BinaryExpression,
        ensures
            final(self).wf(),
            evaluates(old(self)@, *node, depth, final(self)@, value_view(r)),
        decreases depth, node, 1nat,
    {
        match &node.expr {
            Expression::BinaryExpression(left, operator, right) => match self.evaluate(
                left,
                depth,
            ) {
                Ok(a) => match self.evaluate(right, depth) {
                    Ok(b) => apply_binary(*operator, a, b, left.line),
                    Err(error) => Err(error),
                },
                Err(error) => Err(error),
            },
            _ => unreached(),
        }
    }

    fn evaluate_ternary(&mut self, node: &ExpressionNode, depth: usize) -> (r: Result<
        Literal,
        Error,
    >)
        requires
            old(self).wf(),
            node.expr is TernaryExpression,
        ensures
            final(self).wf(),
            evaluates(old(self)@, *node, depth, final(self)@, value_view(r)),
        decreases depth, node, 1nat,
    {
        match &node.expr {
            Expression::TernaryExpression(condition, _, first, second) => match self.evaluate(
                condition,
                depth,
            ) {
                Ok(Literal::Boolean(chosen)) => {
                    if chosen {
                        self.evaluate(first, depth)
                    } else {
                        self.evaluate(second, depth)
                    }
                },
                Ok(_) => Err(
                    Error::with_message(condition.line, "Expression must evaluate to boolean"),
                ),
                Err(error) => Err(error),
            },
            _ => unreached(),
        }
    }

    fn evaluate_logical(&mut self, node: &ExpressionNode, depth: usize) -> (r: Result<
        Literal,
        Error,
    >)
        requires
            old(self).wf(),
            node.expr is Or || node.expr is And,
        ensures
            final(self).wf(),
            evaluates(old(self)@, *node, depth, final(self)@, value_view(r)),
        decreases depth, node, 1nat,
    {
        let (left, operator, right) = match &node.expr {
            Expression::Or(left, operator, right) => (left, operator, right),
            Expression::And(left, operator, right) => (left, operator, right),
            _ => unreached(),
        };
        match self.evaluate(left, depth) {
            Ok(value) => {
                let decided = match operator {
                    LogicalOperator::OR => value.is_truthy(),
                    LogicalOperator::AND => !value.is_truthy(),
                };
                if decided {
                    Ok(value)
                } else {
                    self.evaluate(right, depth)
                }
            },
            Err(error) => Err(error),
        }
    }

    fn evaluate_assignment(&mut self, node: &ExpressionNode, depth: usize) -> (r: Result<
        Literal,
        Error,
    >)
        requires
            old(self).wf(),
            node.expr is Assignment,
        ensures
            final(self).wf(),
            evaluates(old(self)@, *node, depth, final(self)@, value_view(r)),
        decreases depth, node, 1nat,
    {
        match &node.expr {
            Expression::Assignment(variable, source) => match self.evaluate(source, depth) {
                Ok(value) => match self.assign(variable, value) {
                    Some(previous) => Ok(previous),
                    None => Err(Error::with_message(source.line, "Undefined variable.")),
                },
                Err(error) => Err(error),
            },
            _ => unreached(),
        }
    }

    /// The value of a field of an instance.
    pub fn field(&self, handle: &InstanceHandle, name: &Identifier) -> (r: Option<Literal>)
        requires
            self.wf(),
        ensures
            match r {
                Some(value) => handle.index < self@.instances.len()
                    && self@.instances[handle.index as int].fields.contains_key(name.name@)
                    && self@.instances[handle.index as int].fields[name.name@] == value@,
                None => !(handle.index < self@.instances.len()
                    && self@.instances[handle.index as int].fields.contains_key(name.name@)),
            },
    {
        if handle.index < self.instances.len() {
            self.instances[handle.index].get(name)
        } else {
            None
        }
    }

    /// Sets a field of the instance at `index`.
    pub fn set_field(&mut self, index: usize, name: String, value: Literal)
        requires
            old(self).wf(),
            index < old(self).instances@.len(),
        ensures
            final(self).wf(),
            final(self)@ == (State {
                instances: old(self)@.instances.update(
                    index as int,
                    super::instance::LoxInstanceView {
                        class: old(self)@.instances[index as int].class,
                        fields: old(self)@.instances[index as int].fields.insert(name@, value@),
                    },
                ),
                ..old(self)@
            }),
    {
        let instance = &mut self.instances[index];
        instance.set(name, value);
        proof {
            assert(final(self)@.instances =~= old(self)@.instances.update(
                index as int,
                super::instance::LoxInstanceView {
                    class: old(self)@.instances[index as int].class,
                    fields: old(self)@.instances[index as int].fields.insert(name@, value@),
                },
            ));
            assert(final(self)@.environments =~= old(self)@.environments);
            assert(final(self)@.output =~= old(self)@.output);
        }
    }

    fn evaluate_get(&mut self, node: &ExpressionNode, depth: usize) -> (r: Result<Literal, Error>)
        requires
            old(self).wf(),
            node.expr is GetExpression,
        ensures
            final(self).wf(),
            evaluates(old(self)@, *node, depth, final(self)@, value_view(r)),
        decreases depth, node, 1nat,
    {
        match &node.expr {
            Expression::GetExpression(name, object) => match self.evaluate(object, depth) {
                Ok(Literal::Instance(handle)) => match self.field(&handle, name) {
                    Some(value) => Ok(value),
                    None => Err(Error::with_message(name.line, "Undefined property.")),
                },
                Ok(_) => Err(Error::with_message(name.line, "Only instances have properties.")),
                Err(error) => Err(error),
            },
            _ => unreached(),
        }
    }

    fn evaluate_set(&mut self, node: &ExpressionNode, depth: usize) -> (r: Result<Literal, Error>)
        requires
            old(self).wf(),
            node.expr is SetExpression,
        ensures
            final(self).wf(),
            evaluates(old(self)@, *node, depth, final(self)@, value_view(r)),
        decreases depth, node, 1nat,
    {
        match &node.expr {
            Expression::SetExpression(object, name, source) => match self.evaluate(object, depth) {
                Ok(Literal::Instance(handle)) => match self.evaluate(source, depth) {
                    Ok(value) => {
                        if handle.index < self.instances.len() {
                            self.set_field(handle.index, name.name.clone(), value.clone());
                            Ok(value)
                        } else {
                            Err(Error::with_message(name.line, "Undefined property."))
                        }
                    },
                    Err(error) => Err(error),
                },
                Ok(_) => Err(Error::with_message(name.line, "Only instances have fields.")),
                Err(error) => Err(error),
            },
            _ => unreached(),
        }
    }

    #[verifier::loop_isolation(false)]
    fn evaluate_call(&mut self, node: &ExpressionNode, depth: usize) -> (r: Result<Literal, Error>)
        requires
            old(self).wf(),
            node.expr is CallExpression,
        ensures
            final(self).wf(),
            evaluates(old(self)@, *node, depth, final(self)@, value_view(r)),
        decreases depth, node, 1nat,
    {
        match &node.expr {
            Expression::CallExpression(callee, _, arguments) => match self.evaluate(callee, depth) {
                Ok(target) => {
                    let callable = match &target {
                        Literal::Callable(_) => true,
                        Literal::Class(_) => true,
                        _ => false,
                    };
                    if !callable {
                        return Err(
                            Error::with_message(node.line, "Can only call functions and classes."),
                        );
                    }
                    let ghost middle = self@;
                    let mut given: Vec<Literal> = Vec::new();
                    let mut i: usize = 0;
                    assert(views(given@) =~= Seq::<LiteralView>::empty());
                    while i < arguments.len()
                        invariant
                            self.wf(),
                            i <= arguments.len(),
                            node.expr matches Expression::CallExpression(_, _, a) && a
                                == *arguments,
                            extends(self@.log, middle.log),
                            extends(self@.log, old(self)@.log),
                            old(self)@.environments.len() <= self@.environments.len(),
                            forall|oracle: Oracle| #[trigger]
                                follows(oracle, self@.log) ==> evaluate_arguments(
                                    middle,
                                    arguments@,
                                    0,
                                    Seq::empty(),
                                    depth,
                                    oracle,
                                ) == evaluate_arguments(
                                    self@,
                                    arguments@,
                                    i as int,
                                    views(given@),
                                    depth,
                                    oracle,
                                ),
                        decreases arguments.len() - i,
                    {
                        let ghost done = views(given@);
                        match self.evaluate(&arguments[i], depth) {
                            Ok(value) => {
                                given.push(value);
                                assert(views(given@) =~= done.push(value@));
                            },
                            Err(error) => {
                                return Err(error);
                            },
                        }
                        i += 1;
                    }
                    self.invoke(node, target, given, depth)
                },
                Err(error) => Err(error),
            },
            _ => unreached(),
        }
    }

    /// Calls `target` with the arguments `given`; `node` is the call, whose
    /// line an error carries. A class gives a new instance, the builtin the
    /// reading of the wall clock, and a function the value that its body
    /// returns when it runs in a new scope inside the scope the function was
    /// made in, with the parameters bound to the arguments. The number of
    /// arguments must be the number that the callable takes, and a value that
    /// is no callable cannot be called.
    pub fn invoke(&mut self, node: &ExpressionNode, target: Literal, given: Vec<Literal>, depth: usize) -> (r:
        Result<Literal, Error>)
        requires
            old(self).wf(),
        ensures
            final(self).wf(),
            extends(final(self)@.log, old(self)@.log),
            final(self).environments@.len() >= old(self).environments@.len(),
            forall|oracle: Oracle| #[trigger]
                follows(oracle, final(self)@.log) ==> invoke(
                    old(self)@,
                    *node,
                    target@,
                    views(given@),
                    depth,
                    oracle,
                ) == (final(self)@, value_view(r)),
        decreases depth, node, 0nat,
    {
        match target {
            Literal::Class(class) => {
                if given.len() != 0 {
                    return Err(arity_error(0, given.len(), node.line));
                }
                let index = self.instances.len();
                self.instances.push(LoxInstance::new(class.clone()));
                proof {
                    assert(final(self)@.instances =~= old(self)@.instances.push(
                        super::instance::LoxInstanceView { class, fields: Map::empty() },
                    ));
                    assert(final(self)@.environments =~= old(self)@.environments);
                    assert(final(self)@.output =~= old(self)@.output);
                }
                Ok(Literal::Instance(InstanceHandle { class, index }))
            },
            Literal::Callable(Callable::Builtin(_)) => {
                if given.len() != 0 {
                    return Err(arity_error(0, given.len(), node.line));
                }
                let seconds = Clock::read();
                self.log = Ghost(self.log@.push(seconds));
                Ok(Clock::value(seconds))
            },
            Literal::Callable(Callable::Function(function)) => {
                let parameters = function.function.parameters();
                if given.len() != parameters.len() {
                    return Err(arity_error(parameters.len(), given.len(), node.line));
                }
                if depth == 0 {
                    return Err(Error::with_message(node.line, "Stack overflow."));
                }
                if function.closure >= self.environments.len() {
                    return Err(
                        Error::with_message(node.line, "Can only call functions and classes."),
                    );
                }
                let caller = self.environment;
                let count = self.environments.len();
                let created = self.created;
                let mut frame = Environment::new_with_environment(function.closure);
                let mut i: usize = 0;
                while i < parameters.len()
                    invariant
                        i <= parameters.len(),
                        given.len() == parameters.len(),
                        frame.wf(),
                        frame.enclosing == Some(function.closure),
                        frame@.values == parameter_bindings(parameters@, views(given@), i as int),
                    decreases parameters.len() - i,
                {
                    frame.define(parameters[i].name.clone(), given[i].clone());
                    i += 1;
                }
                self.enter(frame);
                let result = self.interpret(function.function.body(), depth - 1);
                self.leave(caller, count, created);
                match result {
                    Ok(Some(value)) => Ok(value),
                    Ok(None) => Ok(Literal::Nil),
                    Err(error) => Err(error),
                }
            },
            _ => Err(Error::with_message(node.line, "Can only call functions and classes.")),
        }
    }

    /// Executes statements in order, in the current scope, until one returns
    /// or fails.
    pub fn interpret(&mut self, statements: &Vec<Statement>, depth: usize) -> (r: Result<
        Option<Literal>,
        Error,
    >)
        requires
            old(self).wf(),
        ensures
            final(self).wf(),
            extends(final(self)@.log, old(self)@.log),
            final(self).environments@.len() >= old(self).environments@.len(),
            forall|oracle: Oracle| #[trigger]
                follows(oracle, final(self)@.log) ==> execute_block(
                    old(self)@,
                    statements@,
                    0,
                    depth,
                    oracle,
                ) == (final(self)@, completion_view(r)),
        decreases depth, statements, 0nat,
    {
        let mut i: usize = 0;
        while i < statements.len()
            invariant
                self.wf(),
                i <= statements.len(),
                extends(self@.log, old(self)@.log),
                self.environments@.len() >= old(self).environments@.len(),
                forall|oracle: Oracle| #[trigger]
                    follows(oracle, self@.log) ==> execute_block(
                        old(self)@,
                        statements@,
                        0,
                        depth,
                        oracle,
                    ) == execute_block(self@, statements@, i as int, depth, oracle),
            decreases statements.len() - i,
        {
            match self.evaluate_statement(&statements[i], false, depth) {
                Ok(None) => {},
                Ok(Some(value)) => {
                    return Ok(Some(value));
                },
                Err(error) => {
                    return Err(error);
                },
            }
            i += 1;
        }
        Ok(None)
    }

    /// Executes statements in the scope at `environment`, and comes back to
    /// the current scope.
    pub fn execute_block(&mut self, statements: &Vec<Statement>, environment: usize, depth: usize) -> (r:
        Result<Option<Literal>, Error>)
        requires
            old(self).wf(),
            environment < old(self).environments@.len(),
        ensures
            final(self).wf(),
            extends(final(self)@.log, old(self)@.log),
            final(self).environments@.len() >= old(self).environments@.len(),
            forall|oracle: Oracle| #[trigger]
                follows(oracle, final(self)@.log) ==> ({
                    let (after, completion) = execute_block(
                        old(self)@.at(environment),
                        statements@,
                        0,
                        depth,
                        oracle,
                    );
                    (after.at(old(self)@.environment), completion)
                }) == (final(self)@, completion_view(r)),
        decreases depth, statements, 1nat,
    {
        let previous = self.environment;
        self.environment = environment;
        let result = self.interpret(statements, depth);
        self.environment = previous;
        result
    }

    fn execute_while(&mut self, statement: &Statement, depth: usize) -> (r: Result<
        Option<Literal>,
        Error,
    >)
        requires
            old(self).wf(),
            statement is WhileStatement,
        ensures
            final(self).wf(),
            executes(old(self)@, *statement, depth, final(self)@, completion_view(r)),
        decreases depth, statement, 1nat,
    {
        match statement {
            Statement::WhileStatement(condition, body) => {
                let mut left: usize = MAX_ITERATIONS;
                loop
                    invariant
                        self.wf(),
                        statement matches Statement::WhileStatement(c, b) && c == *condition && b
                            == *body,
                        extends(self@.log, old(self)@.log),
                        self.environments@.len() >= old(self).environments@.len(),
                        forall|oracle: Oracle| #[trigger]
                            follows(oracle, self@.log) ==> execute_while(
                                old(self)@,
                                *statement,
                                MAX_ITERATIONS as nat,
                                depth,
                                oracle,
                            ) == execute_while(self@, *statement, left as nat, depth, oracle),
                    decreases left,
                {
                    match self.evaluate(condition, depth) {
                        Ok(value) => {
                            if !value.is_truthy() {
                                return Ok(None);
                            }
                            if left == 0 {
                                return Err(
                                    Error::with_message(condition.line, "Loop ran too long."),
                                );
                            }
                            match self.evaluate_statement(body, false, depth) {
                                Ok(None) => {},
                                Ok(Some(returned)) => {
                                    return Ok(Some(returned));
                                },
                                Err(error) => {
                                    return Err(error);
                                },
                            }
                            left -= 1;
                        },
                        Err(error) => {
                            return Err(error);
                        },
                    }
                }
            },
            _ => unreached(),
        }
    }

    /// Executes a statement. The result is `None` where the statement ran to
    /// its end, and the value of the `return` where it reached one.
    /// `run_in_repl` says whether the statement was typed at the prompt; the
    /// result does not depend on it.
    pub fn evaluate_statement(&mut self, statement: &Statement, run_in_repl: bool, depth: usize) -> (r:
        Result<Option<Literal>, Error>)
        requires
            old(self).wf(),
        ensures
            final(self).wf(),
            executes(old(self)@, *statement, depth, final(self)@, completion_view(r)),
        decreases depth, statement, 2nat,
    {
        match statement {
            Statement::ExpressionStatement(expression) => match self.evaluate(expression, depth) {
                Ok(_) => Ok(None),
                Err(error) => Err(error),
            },
            Statement::PrintStatement(expression) => match self.evaluate(expression, depth) {
                Ok(value) => {
                    let ghost before = self@;
                    self.output.push(value.to_string());
                    proof {
                        assert(self@.output =~= before.output.push(value@.display()));
                        assert(self@.environments =~= before.environments);
                        assert(self@.instances =~= before.instances);
                    }
                    Ok(None)
                },
                Err(error) => Err(error),
            },
            Statement::VariableDeclaration(name, initializer) => match initializer {
                Some(expression) => match self.evaluate(expression, depth) {
                    Ok(value) => {
                        self.define(name.name.clone(), value);
                        Ok(None)
                    },
                    Err(error) => Err(error),
                },
                None => {
                    self.define(name.name.clone(), Literal::Nil);
                    Ok(None)
                },
            },
            Statement::BlockStatement(statements) => {
                let previous = self.environment;
                let count = self.environments.len();
                let created = self.created;
                self.enter(Environment::new_with_environment(previous));
                let result = self.interpret(statements, depth);
                self.leave(previous, count, created);
                result
            },
            Statement::IfStatement(condition, then_branch, else_branch) => match self.evaluate(
                condition,
                depth,
            ) {
                Ok(value) => {
                    if value.is_truthy() {
                        self.evaluate_statement(then_branch, run_in_repl, depth)
                    } else {
                        match else_branch {
                            Some(branch) => self.evaluate_statement(branch, run_in_repl, depth),
                            None => Ok(None),
                        }
                    }
                },
                Err(error) => Err(error),
            },
            Statement::WhileStatement(_, _) => self.execute_while(statement, depth),
            Statement::FunctionDeclaration(declaration) => {
                let closure = self.environment;
                let id = self.next_id();
                self.define(
                    declaration.identifier.name.clone(),
                    Literal::Callable(
                        Callable::Function(
                            LoxFunction::new(Function::Declaration(declaration.clone()), closure, id),
                        ),
                    ),
                );
                Ok(None)
            },
            Statement::ClassDeclaration(name, methods) => {
                let id = self.next_id();
                self.define(
                    name.name.clone(),
                    Literal::Class(LoxClass::with_methods(name.name.clone(), methods.clone(), id)),
                );
                Ok(None)
            },
            Statement::ReturnStatement(_, value) => match value {
                Some(expression) => match self.evaluate(expression, depth) {
                    Ok(returned) => Ok(Some(returned)),
                    Err(error) => Err(error),
                },
                None => Ok(Some(Literal::Nil)),
            },
        }
    }
}

} // verus!
