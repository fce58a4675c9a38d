use super::instance::{last_position, lemma_last_position};
use crate::ast::expression::{
    Expression, ExpressionNode, FunctionDeclaration, FunctionExpression, Identifier, Variable,
};
use crate::ast::statement::Statement;
use crate::ast::syntax::{
    node_views, owned, statement_views, ExpressionView, FunctionView, NodeView, StatementView,
};
use crate::common::error::{fault_at, Error, ErrorView};
use std::rc::Rc;
use vstd::prelude::*;

verus! {

/// What the resolver knows of a local variable: whether its initializer has
/// been resolved, how often it was referred to, and the line of its declaration.
#[derive(Debug)]
pub struct ResolverVariable {
    pub initialized: bool,
    pub usages: u32,
    pub line: usize,
}

impl ResolverVariable {
    /// The same knowledge with one more reference counted; the count stays
    /// at its greatest value once it has reached it.
    pub open spec fn used(self) -> ResolverVariable {
        ResolverVariable {
            usages: if self.usages < u32::MAX {
                (self.usages + 1) as u32
            } else {
                self.usages
            },
            ..self
        }
    }

    /// A variable that is declared and not yet defined.
    pub fn unresolved(line: usize) -> (r: Self)
        ensures
            r == (ResolverVariable { initialized: false, usages: 0, line }),
    {
        Self { initialized: false, usages: 0, line }
    }

    /// A variable that is defined.
    pub fn resolved(line: usize) -> (r: Self)
        ensures
            r == (ResolverVariable { initialized: true, usages: 0, line }),
    {
        Self { initialized: true, usages: 0, line }
    }

    /// Counts one more reference; the count stays at its greatest value once
    /// it has reached it.
    pub fn increment_usages(&mut self)
        ensures
            *final(self) == old(self).used(),
    {
        if self.usages < u32::MAX {
            self.usages += 1;
        }
    }

    /// Whether the variable was referred to.
    pub fn is_used(&self) -> (r: bool)
        ensures
            r == (self.usages > 0),
    {
        return self.usages > 0;
    }
}

/// Whether the resolver is inside the body of a function.
#[derive(Debug, Clone, Copy, PartialEq, Eq, Structural)]
pub enum FunctionKind {
    TopLevel,
    Function,
}

/// What a scope holds: for each of its names, what the resolver knows of it.
pub type ScopeView = Map<Seq<char>, ResolverVariable>;

/// The local variables of one scope. Where a name was entered more than once,
/// the last entry is the one that counts.
#[derive(Debug)]
pub struct Scope {
    pub names: Vec<String>,
    pub variables: Vec<ResolverVariable>,
}

impl View for Scope {
    type V = ScopeView;

    /// Each name of the scope, with what is known of it: whether it is
    /// defined, how often it was referred to, and the line of its declaration.
    open spec fn view(&self) -> ScopeView {
        Map::new(
            |name: Seq<char>| last_position(self.names@, name).is_some(),
            |name: Seq<char>| self.variables@[last_position(self.names@, name).unwrap()],
        )
    }
}

impl Scope {
    /// Every name has its entry.
    pub open spec fn wf(&self) -> bool {
        self.names@.len() == self.variables@.len()
    }

    /// A scope without names.
    pub fn new() -> (r: Scope)
        ensures
            r.wf(),
            r@ == Map::<Seq<char>, ResolverVariable>::empty(),
    {
        let r = Scope { names: Vec::new(), variables: Vec::new() };
        assert(r@ =~= Map::<Seq<char>, ResolverVariable>::empty());
        r
    }

    /// Where the entry of `name` stands.
    pub fn position(&self, name: &String) -> (r: Option<usize>)
        requires
            self.wf(),
        ensures
            match r {
                Some(i) => last_position(self.names@, name@) == Some(i as int) && i
                    < self.names@.len() && self@.contains_key(name@) && self@[name@]
                    == self.variables@[i as int],
                None => last_position(self.names@, name@).is_none() && !self@.contains_key(name@),
            },
    {
        let mut i: usize = self.names.len();
        assert(self.names@.subrange(0, i as int) =~= self.names@);
        while i > 0
            invariant
                i <= self.names.len(),
                last_position(self.names@, name@) == last_position(
                    self.names@.subrange(0, i as int),
                    name@,
                ),
            decreases i,
        {
            let candidate: &String = &self.names[i - 1];
            let ghost prefix = self.names@.subrange(0, i as int);
            assert(prefix[prefix.len() - 1] == self.names@[i - 1]);
            if *candidate == *name {
                return Some(i - 1);
            }
            assert(prefix.drop_last() =~= self.names@.subrange(0, i - 1));
            i -= 1;
        }
        None
    }

    /// Enters `name` with the given knowledge, whether or not it was entered before.
    pub fn insert(&mut self, name: String, variable: ResolverVariable)
        requires
            old(self).wf(),
        ensures
            final(self).wf(),
            final(self)@ == old(self)@.insert(name@, variable),
    {
        self.names.push(name);
        self.variables.push(variable);
        proof {
            assert forall|n: Seq<char>| #[trigger]
                last_position(final(self).names@, n) == (if n == name@ {
                    Some(old(self).names@.len() as int)
                } else {
                    last_position(old(self).names@, n)
                }) by {
                assert(final(self).names@.drop_last() =~= old(self).names@);
            }
            assert forall|n: Seq<char>|
                final(self)@.contains_key(n) && n != name@ implies final(self)@[n] == old(
                    self,
                )@[n] by {
                lemma_last_position(old(self).names@, n);
            }
            assert(final(self)@ =~= old(self)@.insert(name@, variable));
        }
    }

    /// Counts one more reference to `name`, where the scope holds it, and
    /// says whether it does.
    pub fn count(&mut self, name: &String) -> (r: bool)
        requires
            old(self).wf(),
        ensures
            final(self).wf(),
            r == old(self)@.contains_key(name@),
            final(self)@ == counted(old(self)@, name@),
    {
        match self.position(name) {
            Some(i) => {
                let entry = &mut self.variables[i];
                entry.increment_usages();
                proof {
                    assert(final(self).names@ == old(self).names@);
                    assert forall|n: Seq<char>| #[trigger]
                        final(self)@.contains_key(n) implies final(self)@[n] == counted(
                        old(self)@,
                        name@,
                    )[n] by {
                        lemma_last_position(old(self).names@, n);
                        lemma_last_position(old(self).names@, name@);
                    }
                    assert(final(self)@ =~= counted(old(self)@, name@));
                }
                true
            },
            None => false,
        }
    }
}

/// The scope with one more reference to `name` counted, where it holds the name.
pub open spec fn counted(scope: ScopeView, name: Seq<char>) -> ScopeView {
    if scope.contains_key(name) {
        scope.insert(name, scope[name].used())
    } else {
        scope
    }
}

/// The scopes of the resolver, each as a map from names to what is known of
/// them, and whether the resolver is inside a function.
pub struct Resolution {
    pub scopes: Seq<ScopeView>,
    pub in_function: bool,
}

/// The number of scopes between the innermost scope and the innermost scope
/// that holds `name`, counted on from `skipped`.
pub open spec fn innermost(scopes: Seq<ScopeView>, name: Seq<char>, skipped: nat) -> Option<
    nat,
>
    decreases scopes.len(),
{
    if scopes.len() == 0 {
        None
    } else if scopes[scopes.len() - 1].contains_key(name) {
        Some(skipped)
    } else {
        innermost(scopes.drop_last(), name, skipped + 1)
    }
}

/// The depth that [`innermost`] finds lies among the scopes, and the scope at that depth holds the name.
pub proof fn lemma_innermost(scopes: Seq<ScopeView>, name: Seq<char>, skipped: nat)
    ensures
        match innermost(scopes, name, skipped) {
            Some(depth) => skipped <= depth < skipped + scopes.len() && scopes[scopes.len() - 1 - (
            depth - skipped)].contains_key(name),
            None => true,
        },
    decreases scopes.len(),
{
    if scopes.len() > 0 && !scopes[scopes.len() - 1].contains_key(name) {
        lemma_innermost(scopes.drop_last(), name, skipped + 1);
    }
}

impl Resolution {
    /// The reference with its depth: the number of scopes between the
    /// reference and the innermost scope that holds the name, or none where no
    /// scope holds it. A name that is declared and not yet defined cannot be
    /// referred to.
    pub open spec fn resolve_variable(self, variable: Variable) -> Result<Variable, ErrorView> {
        let name = variable.identifier.name@;
        match innermost(self.scopes, name, 0) {
            Some(depth) => if self.scopes[self.scopes.len() - 1 - depth][name].initialized {
                Ok(Variable { identifier: variable.identifier, depth: Some(depth as usize) })
            } else {
                Err(
                    fault_at(
                        "Can't read local variable in its own initializer."@,
                        variable.identifier.line,
                        variable.identifier.name@,
                    ),
                )
            },
            None => Ok(Variable { identifier: variable.identifier, depth: None }),
        }
    }

    /// The state with `name` entered in the innermost scope, with the given
    /// knowledge; outside every scope nothing is entered.
    pub open spec fn enter(self, name: Seq<char>, variable: ResolverVariable) -> Resolution {
        if self.scopes.len() == 0 {
            self
        } else {
            Resolution {
                scopes: self.scopes.update(
                    self.scopes.len() - 1,
                    self.scopes[self.scopes.len() - 1].insert(name, variable),
                ),
                ..self
            }
        }
    }

    /// The state after a reference to `name` was counted: the count is kept
    /// with the name in the innermost scope, where that scope holds it.
    pub open spec fn count(self, name: Seq<char>) -> Resolution {
        if self.scopes.len() == 0 {
            self
        } else {
            Resolution {
                scopes: self.scopes.update(
                    self.scopes.len() - 1,
                    counted(self.scopes[self.scopes.len() - 1], name),
                ),
                ..self
            }
        }
    }

    /// The state after `name` was declared: the innermost scope holds it as
    /// not yet defined and never referred to, with the line it stands on. A
    /// name that the innermost scope holds already cannot be declared again.
    pub open spec fn declare(self, name: Identifier) -> Result<Resolution, ErrorView> {
        if self.scopes.len() > 0 && self.scopes[self.scopes.len() - 1].contains_key(name.name@) {
            Err(
                fault_at(
                    "Already a variable with this name is in this scope."@,
                    name.line,
                    name.name@,
                ),
            )
        } else {
            Ok(
                self.enter(
                    name.name@,
                    ResolverVariable { initialized: false, usages: 0, line: name.line },
                ),
            )
        }
    }

    /// The state after `name` was defined: the innermost scope holds it as
    /// defined and never referred to, with the line it stands on.
    pub open spec fn define(self, name: Identifier) -> Resolution {
        self.enter(name.name@, ResolverVariable { initialized: true, usages: 0, line: name.line })
    }

    /// The state with one more scope, which is empty.
    pub open spec fn begin(self) -> Resolution {
        Resolution { scopes: self.scopes.push(Map::empty()), ..self }
    }

    /// The state without its innermost scope.
    pub open spec fn end(self) -> Resolution {
        if self.scopes.len() == 0 {
            self
        } else {
            Resolution { scopes: self.scopes.drop_last(), ..self }
        }
    }
}

/// The state after the parameters from `from` on were declared and defined,
/// and the error of the first that could not be declared.
pub open spec fn declare_parameters(state: Resolution, parameters: Seq<Identifier>, from: int) -> (
    Resolution,
    Option<ErrorView>,
)
    decreases parameters.len() - from,
{
    if 0 <= from < parameters.len() {
        match state.declare(parameters[from]) {
            Ok(declared) => declare_parameters(
                declared.define(parameters[from]),
                parameters,
                from + 1,
            ),
            Err(error) => (state, Some(error)),
        }
    } else {
        (state, None)
    }
}

/// The expression with every reference given its depth, and the state after
/// it; the first reference or `return` that is not allowed ends the
/// resolution with its error.
pub open spec fn resolve_expression(state: Resolution, node: NodeView) -> (
    Resolution,
    Result<NodeView, ErrorView>,
)
    decreases node,
{
    match node.expr {
        ExpressionView::Variable(variable) => {
            let counted = state.count(variable.identifier.name@);
            match counted.resolve_variable(variable) {
                Ok(resolved) => (
                    counted,
                    Ok(NodeView { line: node.line, expr: ExpressionView::Variable(resolved) }),
                ),
                Err(error) => (counted, Err(error)),
            }
        },
        ExpressionView::GetExpression(name, object) => {
            let (after, resolved) = resolve_expression(state, *object);
            match resolved {
                Ok(o) => (
                    after,
                    Ok(
                        NodeView {
                            line: node.line,
                            expr: ExpressionView::GetExpression(name, Box::new(o)),
                        },
                    ),
                ),
                Err(error) => (after, Err(error)),
            }
        },
        ExpressionView::SetExpression(object, name, value) => {
            let (middle, first) = resolve_expression(state, *value);
            match first {
                Ok(v) => {
                    let (after, second) = resolve_expression(middle, *object);
                    match second {
                        Ok(o) => (
                            after,
                            Ok(
                                NodeView {
                                    line: node.line,
                                    expr: ExpressionView::SetExpression(
                                        Box::new(o),
                                        name,
                                        Box::new(v),
                                    ),
                                },
                            ),
                        ),
                        Err(error) => (after, Err(error)),
                    }
                },
                Err(error) => (middle, Err(error)),
            }
        },
        ExpressionView::Assignment(variable, value) => {
            let (after, first) = resolve_expression(state, *value);
            match first {
                Ok(v) => match after.resolve_variable(variable) {
                    Ok(resolved) => (
                        after,
                        Ok(
                            NodeView {
                                line: node.line,
                                expr: ExpressionView::Assignment(resolved, Box::new(v)),
                            },
                        ),
                    ),
                    Err(error) => (after, Err(error)),
                },
                Err(error) => (after, Err(error)),
            }
        },
        ExpressionView::BinaryExpression(left, operator, right) => {
            let (middle, first) = resolve_expression(state, *left);
            match first {
                Ok(a) => {
                    let (after, second) = resolve_expression(middle, *right);
                    match second {
                        Ok(b) => (
                            after,
                            Ok(
                                NodeView {
                                    line: node.line,
                                    expr: ExpressionView::BinaryExpression(
                                        Box::new(a),
                                        operator,
                                        Box::new(b),
                                    ),
                                },
                            ),
                        ),
                        Err(error) => (after, Err(error)),
                    }
                },
                Err(error) => (middle, Err(error)),
            }
        },
        ExpressionView::Or(left, operator, right) => {
            let (middle, first) = resolve_expression(state, *left);
            match first {
                Ok(a) => {
                    let (after, second) = resolve_expression(middle, *right);
                    match second {
                        Ok(b) => (
                            after,
                            Ok(
                                NodeView {
                                    line: node.line,
                                    expr: ExpressionView::Or(Box::new(a), operator, Box::new(b)),
                                },
                            ),
                        ),
                        Err(error) => (after, Err(error)),
                    }
                },
                Err(error) => (middle, Err(error)),
            }
        },
        ExpressionView::And(left, operator, right) => {
            let (middle, first) = resolve_expression(state, *left);
            match first {
                Ok(a) => {
                    let (after, second) = resolve_expression(middle, *right);
                    match second {
                        Ok(b) => (
                            after,
                            Ok(
                                NodeView {
                                    line: node.line,
                                    expr: ExpressionView::And(Box::new(a), operator, Box::new(b)),
                                },
                            ),
                        ),
                        Err(error) => (after, Err(error)),
                    }
                },
                Err(error) => (middle, Err(error)),
            }
        },
        ExpressionView::CallExpression(callee, paren, arguments) => {
            let (middle, first) = resolve_expression(state, *callee);
            match first {
                Ok(c) => {
                    let (after, rest) = resolve_expressions(middle, arguments, 0, Seq::empty());
                    match rest {
                        Ok(resolved) => (
                            after,
                            Ok(
                                NodeView {
                                    line: node.line,
                                    expr: ExpressionView::CallExpression(
                                        Box::new(c),
                                        paren,
                                        resolved,
                                    ),
                                },
                            ),
                        ),
                        Err(error) => (after, Err(error)),
                    }
                },
                Err(error) => (middle, Err(error)),
            }
        },
        ExpressionView::Grouping(inner) => {
            let (after, resolved) = resolve_expression(state, *inner);
            match resolved {
                Ok(a) => (
                    after,
                    Ok(NodeView { line: node.line, expr: ExpressionView::Grouping(Box::new(a)) }),
                ),
                Err(error) => (after, Err(error)),
            }
        },
        ExpressionView::Literal(literal) => (
            state,
            Ok(NodeView { line: node.line, expr: ExpressionView::Literal(literal) }),
        ),
        ExpressionView::Unary(operator, operand) => {
            let (after, resolved) = resolve_expression(state, *operand);
            match resolved {
                Ok(a) => (
                    after,
                    Ok(
                        NodeView {
                            line: node.line,
                            expr: ExpressionView::Unary(operator, Box::new(a)),
                        },
                    ),
                ),
                Err(error) => (after, Err(error)),
            }
        },
        ExpressionView::TernaryExpression(condition, operator, first, second) => {
            let (one, c) = resolve_expression(state, *condition);
            match c {
                Ok(rc) => {
                    let (two, a) = resolve_expression(one, *first);
                    match a {
                        Ok(ra) => {
                            let (three, b) = resolve_expression(two, *second);
                            match b {
                                Ok(rb) => (
                                    three,
                                    Ok(
                                        NodeView {
                                            line: node.line,
                                            expr: ExpressionView::TernaryExpression(
                                                Box::new(rc),
                                                operator,
                                                Box::new(ra),
                                                Box::new(rb),
                                            ),
                                        },
                                    ),
                                ),
                                Err(error) => (three, Err(error)),
                            }
                        },
                        Err(error) => (two, Err(error)),
                    }
                },
                Err(error) => (one, Err(error)),
            }
        },
        ExpressionView::FunctionExpression(function) => {
            let (after, resolved) = resolve_function(state, *function);
            match resolved {
                Ok(f) => (
                    after,
                    Ok(
                        NodeView {
                            line: node.line,
                            expr: ExpressionView::FunctionExpression(Box::new(f)),
                        },
                    ),
                ),
                Err(error) => (after, Err(error)),
            }
        },
    }
}

/// The expressions from `from` on, resolved from left to right, after those
/// in `done`.
pub open spec fn resolve_expressions(
    state: Resolution,
    nodes: Seq<NodeView>,
    from: int,
    done: Seq<NodeView>,
) -> (Resolution, Result<Seq<NodeView>, ErrorView>)
    decreases nodes, nodes.len() - from,
{
    if 0 <= from < nodes.len() {
        let (after, resolved) = resolve_expression(state, nodes[from]);
        match resolved {
            Ok(node) => resolve_expressions(after, nodes, from + 1, done.push(node)),
            Err(error) => (after, Err(error)),
        }
    } else {
        (state, Ok(done))
    }
}

/// The function with its body resolved in a scope of its own, which holds
/// the parameters.
pub open spec fn resolve_function(state: Resolution, function: FunctionView) -> (
    Resolution,
    Result<FunctionView, ErrorView>,
)
    decreases function,
{
    let inside = Resolution { scopes: state.scopes.push(Map::empty()), in_function: true };
    let (declared, refused) = declare_parameters(inside, function.parameters, 0);
    match refused {
        None => {
            let (after, body) = resolve_statements(declared, function.body, 0, Seq::empty());
            match body {
                Ok(resolved) => (
                    Resolution { scopes: after.end().scopes, in_function: state.in_function },
                    Ok(
                        FunctionView {
                            identifier: function.identifier,
                            parameters: function.parameters,
                            body: resolved,
                        },
                    ),
                ),
                Err(error) => (after, Err(error)),
            }
        },
        Some(error) => (declared, Err(error)),
    }
}

/// The statements from `from` on, resolved in order, after those in `done`.
pub open spec fn resolve_statements(
    state: Resolution,
    statements: Seq<StatementView>,
    from: int,
    done: Seq<StatementView>,
) -> (Resolution, Result<Seq<StatementView>, ErrorView>)
    decreases statements, statements.len() - from,
{
    if 0 <= from < statements.len() {
        let (after, resolved) = resolve_statement(state, statements[from]);
        match resolved {
            Ok(statement) => resolve_statements(after, statements, from + 1, done.push(statement)),
            Err(error) => (after, Err(error)),
        }
    } else {
        (state, Ok(done))
    }
}

/// The statement with every reference given its depth, and the state after it.
pub open spec fn resolve_statement(state: Resolution, statement: StatementView) -> (
    Resolution,
    Result<StatementView, ErrorView>,
)
    decreases statement,
{
    match statement {
        StatementView::BlockStatement(statements) => {
            let (after, resolved) = resolve_statements(state.begin(), statements, 0, Seq::empty());
            match resolved {
                Ok(inner) => (after.end(), Ok(StatementView::BlockStatement(inner))),
                Err(error) => (after, Err(error)),
            }
        },
        StatementView::VariableDeclaration(name, initializer) => match state.declare(name) {
            Ok(declared) => match initializer {
                Some(expression) => {
                    let (after, resolved) = resolve_expression(declared, *expression);
                    match resolved {
                        Ok(node) => (
                            after.define(name),
                            Ok(StatementView::VariableDeclaration(name, Some(Box::new(node)))),
                        ),
                        Err(error) => (after, Err(error)),
                    }
                },
                None => (declared.define(name), Ok(StatementView::VariableDeclaration(name, None))),
            },
            Err(error) => (state, Err(error)),
        },
        StatementView::FunctionDeclaration(function) => match function.identifier {
            Some(name) => match state.declare(name) {
                Ok(declared) => {
                    let (after, resolved) = resolve_function(declared.define(name), *function);
                    match resolved {
                        Ok(f) => (after, Ok(StatementView::FunctionDeclaration(Box::new(f)))),
                        Err(error) => (after, Err(error)),
                    }
                },
                Err(error) => (state, Err(error)),
            },
            None => {
                let (after, resolved) = resolve_function(state, *function);
                match resolved {
                    Ok(f) => (after, Ok(StatementView::FunctionDeclaration(Box::new(f)))),
                    Err(error) => (after, Err(error)),
                }
            },
        },
        StatementView::ClassDeclaration(name, methods) => match state.declare(name) {
            Ok(declared) => (
                declared.define(name),
                Ok(StatementView::ClassDeclaration(name, methods)),
            ),
            Err(error) => (state, Err(error)),
        },
        StatementView::ExpressionStatement(expression) => {
            let (after, resolved) = resolve_expression(state, *expression);
            match resolved {
                Ok(node) => (after, Ok(StatementView::ExpressionStatement(Box::new(node)))),
                Err(error) => (after, Err(error)),
            }
        },
        StatementView::PrintStatement(expression) => {
            let (after, resolved) = resolve_expression(state, *expression);
            match resolved {
                Ok(node) => (after, Ok(StatementView::PrintStatement(Box::new(node)))),
                Err(error) => (after, Err(error)),
            }
        },
        StatementView::IfStatement(condition, then_branch, else_branch) => {
            let (one, c) = resolve_expression(state, *condition);
            match c {
                Ok(rc) => {
                    let (two, a) = resolve_statement(one, *then_branch);
                    match a {
                        Ok(ra) => match else_branch {
                            Some(branch) => {
                                let (three, b) = resolve_statement(two, *branch);
                                match b {
                                    Ok(rb) => (
                                        three,
                                        Ok(
                                            StatementView::IfStatement(
                                                Box::new(rc),
                                                Box::new(ra),
                                                Some(Box::new(rb)),
                                            ),
                                        ),
                                    ),
                                    Err(error) => (three, Err(error)),
                                }
                            },
                            None => (
                                two,
                                Ok(StatementView::IfStatement(Box::new(rc), Box::new(ra), None)),
                            ),
                        },
                        Err(error) => (two, Err(error)),
                    }
                },
                Err(error) => (one, Err(error)),
            }
        },
        StatementView::ReturnStatement(line, value) => if !state.in_function {
            (state, Err(fault_at("Can't return from top-level code."@, line, "return"@)))
        } else {
            match value {
                Some(expression) => {
                    let (after, resolved) = resolve_expression(state, *expression);
                    match resolved {
                        Ok(node) => (
                            after,
                            Ok(StatementView::ReturnStatement(line, Some(Box::new(node)))),
                        ),
                        Err(error) => (after, Err(error)),
                    }
                },
                None => (state, Ok(StatementView::ReturnStatement(line, None))),
            }
        },
        StatementView::WhileStatement(condition, body) => {
            let (one, c) = resolve_expression(state, *condition);
            match c {
                Ok(rc) => {
                    let (two, b) = resolve_statement(one, *body);
                    match b {
                        Ok(rb) => (
                            two,
                            Ok(StatementView::WhileStatement(Box::new(rc), Box::new(rb))),
                        ),
                        Err(error) => (two, Err(error)),
                    }
                },
                Err(error) => (one, Err(error)),
            }
        },
    }
}

/// Whether a reference has a depth below `count`, or none.
pub open spec fn variable_bounded(variable: Variable, count: nat) -> bool {
    match variable.depth {
        Some(depth) => depth < count,
        None => true,
    }
}

/// Whether every reference in the expression has a depth below the number
/// of scopes around it, or none; `count` scopes are around the expression.
pub open spec fn node_bounded(node: NodeView, count: nat) -> bool
    decreases node,
{
    match node.expr {
        ExpressionView::Variable(variable) => variable_bounded(variable, count),
        ExpressionView::Assignment(variable, value) => variable_bounded(variable, count)
            && node_bounded(*value, count),
        ExpressionView::GetExpression(_, object) => node_bounded(*object, count),
        ExpressionView::SetExpression(object, _, value) => node_bounded(*object, count)
            && node_bounded(*value, count),
        ExpressionView::BinaryExpression(left, _, right) => node_bounded(*left, count)
            && node_bounded(*right, count),
        ExpressionView::Or(left, _, right) => node_bounded(*left, count) && node_bounded(
            *right,
            count,
        ),
        ExpressionView::And(left, _, right) => node_bounded(*left, count) && node_bounded(
            *right,
            count,
        ),
        ExpressionView::CallExpression(callee, _, arguments) => node_bounded(*callee, count)
            && forall|i: int|
            0 <= i < arguments.len() ==> node_bounded(#[trigger] arguments[i], count),
        ExpressionView::Grouping(inner) => node_bounded(*inner, count),
        ExpressionView::Literal(_) => true,
        ExpressionView::Unary(_, operand) => node_bounded(*operand, count),
        ExpressionView::TernaryExpression(condition, _, first, second) => node_bounded(
            *condition,
            count,
        ) && node_bounded(*first, count) && node_bounded(*second, count),
        ExpressionView::FunctionExpression(function) => forall|i: int|
            0 <= i < function.body.len() ==> statement_bounded(
                #[trigger] function.body[i],
                count + 1,
            ),
    }
}

/// Whether every reference in the statement has a depth below the number of
/// scopes around it, or none; `count` scopes are around the statement. The
/// methods of a class are not looked into.
pub open spec fn statement_bounded(statement: StatementView, count: nat) -> bool
    decreases statement,
{
    match statement {
        StatementView::BlockStatement(statements) => forall|i: int|
            0 <= i < statements.len() ==> statement_bounded(#[trigger] statements[i], count + 1),
        StatementView::VariableDeclaration(_, initializer) => match initializer {
            Some(expression) => node_bounded(*expression, count),
            None => true,
        },
        StatementView::FunctionDeclaration(function) => forall|i: int|
            0 <= i < function.body.len() ==> statement_bounded(
                #[trigger] function.body[i],
                count + 1,
            ),
        StatementView::ClassDeclaration(_, _) => true,
        StatementView::ExpressionStatement(expression) => node_bounded(*expression, count),
        StatementView::PrintStatement(expression) => node_bounded(*expression, count),
        StatementView::IfStatement(condition, then_branch, else_branch) => node_bounded(
            *condition,
            count,
        ) && statement_bounded(*then_branch, count) && match else_branch {
            Some(branch) => statement_bounded(*branch, count),
            None => true,
        },
        StatementView::ReturnStatement(_, value) => match value {
            Some(expression) => node_bounded(*expression, count),
            None => true,
        },
        StatementView::WhileStatement(condition, body) => node_bounded(*condition, count)
            && statement_bounded(*body, count),
    }
}

/// Whether two states have as many scopes, and agree on being in a function.
pub open spec fn same_shape(after: Resolution, before: Resolution) -> bool {
    after.scopes.len() == before.scopes.len() && after.in_function == before.in_function
}

proof fn lemma_variable_bounded(state: Resolution, variable: Variable)
    ensures
        match state.resolve_variable(variable) {
            Ok(resolved) => variable_bounded(resolved, state.scopes.len()),
            Err(_) => true,
        },
{
    lemma_innermost(state.scopes, variable.identifier.name@, 0);
}

proof fn lemma_parameters_shape(state: Resolution, parameters: Seq<Identifier>, from: int)
    ensures
        same_shape(declare_parameters(state, parameters, from).0, state),
    decreases parameters.len() - from,
{
    if 0 <= from < parameters.len() {
        match state.declare(parameters[from]) {
            Ok(declared) => {
                lemma_parameters_shape(declared.define(parameters[from]), parameters, from + 1);
            },
            Err(_) => {},
        }
    }
}

#[verifier::spinoff_prover]
proof fn lemma_expression_bounded(state: Resolution, node: NodeView)
    ensures
        match resolve_expression(state, node) {
            (after, Ok(resolved)) => same_shape(after, state) && node_bounded(
                resolved,
                state.scopes.len(),
            ),
            (_, Err(_)) => true,
        },
    decreases node, 0nat,
{
    let count = state.scopes.len();
    match node.expr {
        ExpressionView::Variable(variable) => {
            lemma_variable_bounded(state.count(variable.identifier.name@), variable);
        },
        ExpressionView::GetExpression(_, object) => {
            lemma_expression_bounded(state, *object);
        },
        ExpressionView::SetExpression(object, _, value) => {
            lemma_expression_bounded(state, *value);
            lemma_expression_bounded(resolve_expression(state, *value).0, *object);
        },
        ExpressionView::Assignment(variable, value) => {
            lemma_expression_bounded(state, *value);
            lemma_variable_bounded(resolve_expression(state, *value).0, variable);
        },
        ExpressionView::BinaryExpression(left, _, right) => {
            lemma_expression_bounded(state, *left);
            lemma_expression_bounded(resolve_expression(state, *left).0, *right);
        },
        ExpressionView::Or(left, _, right) => {
            lemma_expression_bounded(state, *left);
            lemma_expression_bounded(resolve_expression(state, *left).0, *right);
        },
        ExpressionView::And(left, _, right) => {
            lemma_expression_bounded(state, *left);
            lemma_expression_bounded(resolve_expression(state, *left).0, *right);
        },
        ExpressionView::CallExpression(callee, _, arguments) => {
            lemma_expression_bounded(state, *callee);
            let middle = resolve_expression(state, *callee).0;
            if resolve_expression(state, *callee).1 is Ok {
                lemma_expressions_bounded(middle, arguments, 0, Seq::empty(), count);
            }
        },
        ExpressionView::Grouping(inner) => {
            lemma_expression_bounded(state, *inner);
        },
        ExpressionView::Literal(_) => {},
        ExpressionView::Unary(_, operand) => {
            lemma_expression_bounded(state, *operand);
        },
        ExpressionView::TernaryExpression(condition, _, first, second) => {
            lemma_expression_bounded(state, *condition);
            let one = resolve_expression(state, *condition).0;
            lemma_expression_bounded(one, *first);
            lemma_expression_bounded(resolve_expression(one, *first).0, *second);
        },
        ExpressionView::FunctionExpression(function) => {
            lemma_function_bounded(state, *function);
        },
    }
}

proof fn lemma_expressions_bounded(
    state: Resolution,
    nodes: Seq<NodeView>,
    from: int,
    done: Seq<NodeView>,
    count: nat,
)
    requires
        state.scopes.len() == count,
        forall|i: int| 0 <= i < done.len() ==> node_bounded(#[trigger] done[i], count),
    ensures
        match resolve_expressions(state, nodes, from, done) {
            (after, Ok(resolved)) => same_shape(after, state) && forall|i: int|
                0 <= i < resolved.len() ==> node_bounded(#[trigger] resolved[i], count),
            (_, Err(_)) => true,
        },
    decreases nodes, nodes.len() - from,
{
    if 0 <= from < nodes.len() {
        lemma_expression_bounded(state, nodes[from]);
        match resolve_expression(state, nodes[from]) {
            (after, Ok(node)) => {
                let next = done.push(node);
                assert forall|i: int| 0 <= i < next.len() implies node_bounded(
                    #[trigger] next[i],
                    count,
                ) by {
                    if i < done.len() {
                        assert(next[i] == done[i]);
                    }
                }
                lemma_expressions_bounded(after, nodes, from + 1, next, count);
            },
            (_, Err(_)) => {},
        }
    }
}

proof fn lemma_function_bounded(state: Resolution, function: FunctionView)
    ensures
        match resolve_function(state, function) {
            (after, Ok(resolved)) => same_shape(after, state) && forall|i: int|
                0 <= i < resolved.body.len() ==> statement_bounded(
                    #[trigger] resolved.body[i],
                    state.scopes.len() + 1,
                ),
            (_, Err(_)) => true,
        },
    decreases function, 2nat,
{
    let inside = Resolution { scopes: state.scopes.push(Map::empty()), in_function: true };
    lemma_parameters_shape(inside, function.parameters, 0);
    let (declared, refused) = declare_parameters(inside, function.parameters, 0);
    if refused.is_none() {
        lemma_statements_bounded(
            declared,
            function.body,
            0,
            Seq::empty(),
            state.scopes.len() + 1,
        );
    }
}

proof fn lemma_statements_bounded(
    state: Resolution,
    statements: Seq<StatementView>,
    from: int,
    done: Seq<StatementView>,
    count: nat,
)
    requires
        state.scopes.len() == count,
        forall|i: int| 0 <= i < done.len() ==> statement_bounded(#[trigger] done[i], count),
    ensures
        match resolve_statements(state, statements, from, done) {
            (after, Ok(resolved)) => same_shape(after, state) && forall|i: int|
                0 <= i < resolved.len() ==> statement_bounded(#[trigger] resolved[i], count),
            (_, Err(_)) => true,
        },
    decreases statements, statements.len() - from,
{
    if 0 <= from < statements.len() {
        law_resolved_depths_bounded(state, statements[from]);
        match resolve_statement(state, statements[from]) {
            (after, Ok(statement)) => {
                let next = done.push(statement);
                assert forall|i: int| 0 <= i < next.len() implies statement_bounded(
                    #[trigger] next[i],
                    count,
                ) by {
                    if i < done.len() {
                        assert(next[i] == done[i]);
                    }
                }
                lemma_statements_bounded(after, statements, from + 1, next, count);
            },
            (_, Err(_)) => {},
        }
    }
}

/// After resolving, every reference has a depth below the number of scopes
/// around it, or none: a depth never points outside the scopes. Resolving a
/// statement leaves as many scopes as it found.
#[verifier::spinoff_prover]
pub proof fn law_resolved_depths_bounded(state: Resolution, statement: StatementView)
    ensures
        match resolve_statement(state, statement) {
            (after, Ok(resolved)) => same_shape(after, state) && statement_bounded(
                resolved,
                state.scopes.len(),
            ),
            (_, Err(_)) => true,
        },
    decreases statement, 0nat,
{
    let count = state.scopes.len();
    match statement {
        StatementView::BlockStatement(statements) => {
            lemma_statements_bounded(state.begin(), statements, 0, Seq::empty(), count + 1);
        },
        StatementView::VariableDeclaration(name, initializer) => {
            match (state.declare(name), initializer) {
                (Ok(declared), Some(expression)) => {
                    lemma_expression_bounded(declared, *expression);
                },
                _ => {},
            }
        },
        StatementView::FunctionDeclaration(function) => {
            match function.identifier {
                Some(name) => match state.declare(name) {
                    Ok(declared) => {
                        lemma_function_bounded(declared.define(name), *function);
                    },
                    Err(_) => {},
                },
                None => {
                    lemma_function_bounded(state, *function);
                },
            }
        },
        StatementView::ClassDeclaration(_, _) => {},
        StatementView::ExpressionStatement(expression) => {
            lemma_expression_bounded(state, *expression);
        },
        StatementView::PrintStatement(expression) => {
            lemma_expression_bounded(state, *expression);
        },
        StatementView::IfStatement(condition, then_branch, else_branch) => {
            lemma_expression_bounded(state, *condition);
            let one = resolve_expression(state, *condition).0;
            law_resolved_depths_bounded(one, *then_branch);
            match else_branch {
                Some(branch) => {
                    law_resolved_depths_bounded(resolve_statement(one, *then_branch).0, *branch);
                },
                None => {},
            }
        },
        StatementView::ReturnStatement(_, value) => {
            match value {
                Some(expression) => {
                    lemma_expression_bounded(state, *expression);
                },
                None => {},
            }
        },
        StatementView::WhileStatement(condition, body) => {
            lemma_expression_bounded(state, *condition);
            law_resolved_depths_bounded(resolve_expression(state, *condition).0, *body);
        },
    }
}

/// What [`innermost`] finds is the first scope, counted from the inside,
/// that holds the name; where it finds nothing, no scope holds the name.
pub proof fn lemma_innermost_exact(scopes: Seq<ScopeView>, name: Seq<char>, skipped: nat)
    ensures
        match innermost(scopes, name, skipped) {
            Some(depth) => {
                &&& skipped <= depth < skipped + scopes.len()
                &&& scopes[scopes.len() - 1 - (depth - skipped)].contains_key(name)
                &&& forall|k: int|
                    0 <= k < depth - skipped ==> !(#[trigger] scopes[scopes.len() - 1
                        - k]).contains_key(name)
            },
            None => forall|i: int| 0 <= i < scopes.len() ==> !(#[trigger] scopes[i]).contains_key(name),
        },
    decreases scopes.len(),
{
    if scopes.len() > 0 && !scopes[scopes.len() - 1].contains_key(name) {
        let rest = scopes.drop_last();
        lemma_innermost_exact(rest, name, skipped + 1);
        match innermost(rest, name, skipped + 1) {
            Some(depth) => {
                assert(rest[rest.len() - 1 - (depth - (skipped + 1))] == scopes[scopes.len() - 1 - (
                depth - skipped)]);
                assert forall|k: int| 0 <= k < depth - skipped implies !(#[trigger] scopes[scopes.len()
                    - 1 - k]).contains_key(name) by {
                    if k > 0 {
                        assert(rest[rest.len() - 1 - (k - 1)] == scopes[scopes.len() - 1 - k]);
                    }
                }
            },
            None => {
                assert forall|i: int| 0 <= i < scopes.len() implies !(#[trigger] scopes[i]).contains_key(
                    name,
                ) by {
                    if i < rest.len() {
                        assert(rest[i] == scopes[i]);
                    }
                }
            },
        }
    }
}

/// The depth of a reference is the number of scopes between the reference
/// and the innermost scope that holds its name: the scope that many scopes
/// out holds the name as defined, and no scope further in holds it. A
/// reference has no depth exactly where no scope holds its name. A reference
/// is refused exactly where the innermost scope that holds its name holds it
/// as declared and not yet defined.
pub proof fn law_depth_leads_to_innermost_holder(state: Resolution, variable: Variable)
    requires
        state.scopes.len() <= usize::MAX,
    ensures
        ({
            let name = variable.identifier.name@;
            let scopes = state.scopes;
            let count = scopes.len() as int;
            match state.resolve_variable(variable) {
                Ok(resolved) => resolved.identifier == variable.identifier && match resolved.depth {
                    Some(depth) => {
                        &&& depth < count
                        &&& scopes[count - 1 - depth].contains_key(name)
                        &&& scopes[count - 1 - depth][name].initialized
                        &&& forall|k: int|
                            0 <= k < depth ==> !(#[trigger] scopes[count - 1 - k]).contains_key(name)
                    },
                    None => forall|i: int|
                        0 <= i < count ==> !(#[trigger] scopes[i]).contains_key(name),
                },
                Err(_) => exists|depth: int|
                    {
                        &&& 0 <= depth < count
                        &&& (#[trigger] scopes[count - 1 - depth]).contains_key(name)
                        &&& !scopes[count - 1 - depth][name].initialized
                        &&& forall|k: int|
                            0 <= k < depth ==> !(#[trigger] scopes[count - 1 - k]).contains_key(name)
                    },
            }
        }),
{
    lemma_innermost_exact(state.scopes, variable.identifier.name@, 0);
}

/// Whether two scopes hold the same names, each as defined or not and with
/// the same line in both; the counts of references may differ.
pub open spec fn same_names(a: ScopeView, b: ScopeView) -> bool {
    forall|n: Seq<char>|
        #![trigger a.contains_key(n)]
        #![trigger b.contains_key(n)]
        a.contains_key(n) == b.contains_key(n) && (a.contains_key(n) ==> a[n].initialized
            == b[n].initialized && a[n].line == b[n].line)
}

/// Whether two states have as many scopes, agree on being in a function,
/// and have the same scopes around the innermost one.
pub open spec fn outer_same(a: Resolution, b: Resolution) -> bool {
    &&& a.scopes.len() == b.scopes.len()
    &&& a.in_function == b.in_function
    &&& forall|i: int| 0 <= i < a.scopes.len() - 1 ==> #[trigger] a.scopes[i] == b.scopes[i]
}

/// Whether two states differ at most in the counts of references that the
/// innermost scope keeps.
pub open spec fn kept(a: Resolution, b: Resolution) -> bool {
    &&& outer_same(a, b)
    &&& a.scopes.len() > 0 ==> same_names(
        a.scopes[a.scopes.len() - 1],
        b.scopes[b.scopes.len() - 1],
    )
}

/// The state after the names that `statement` declares in the scope it
/// stands in were defined there: the name of a variable, a function or a
/// class, and what the branches of an `if` and the body of a `while` declare.
/// What a block or the body of a function declares stays inside it.
pub open spec fn declared(state: Resolution, statement: StatementView) -> Resolution
    decreases statement,
{
    match statement {
        StatementView::VariableDeclaration(name, _) => state.define(name),
        StatementView::ClassDeclaration(name, _) => state.define(name),
        StatementView::FunctionDeclaration(function) => match function.identifier {
            Some(name) => state.define(name),
            None => state,
        },
        StatementView::IfStatement(_, then_branch, else_branch) => match else_branch {
            Some(branch) => declared(declared(state, *then_branch), *branch),
            None => declared(state, *then_branch),
        },
        StatementView::WhileStatement(_, body) => declared(state, *body),
        _ => state,
    }
}

/// The state after the names that the statements from `from` on declare
/// were defined, in order.
pub open spec fn declared_all(state: Resolution, statements: Seq<StatementView>, from: int) -> Resolution
    decreases statements.len() - from,
{
    if 0 <= from < statements.len() {
        declared_all(declared(state, statements[from]), statements, from + 1)
    } else {
        state
    }
}

proof fn lemma_kept_transitive(a: Resolution, b: Resolution, c: Resolution)
    requires
        kept(a, b),
        kept(b, c),
    ensures
        kept(a, c),
{
    if a.scopes.len() > 0 {
        let x = a.scopes[a.scopes.len() - 1];
        let y = b.scopes[b.scopes.len() - 1];
        let z = c.scopes[c.scopes.len() - 1];
        assert forall|n: Seq<char>|
            #![trigger x.contains_key(n)]
            #![trigger z.contains_key(n)]
            x.contains_key(n) == z.contains_key(n) && (x.contains_key(n) ==> x[n].initialized
                == z[n].initialized && x[n].line == z[n].line) by {
            assert(x.contains_key(n) == y.contains_key(n));
            assert(y.contains_key(n) == z.contains_key(n));
        }
    }
}

proof fn lemma_kept_define(a: Resolution, b: Resolution, name: Identifier)
    requires
        kept(a, b),
    ensures
        kept(a.define(name), b.define(name)),
        outer_same(a.define(name), a),
{
    if a.scopes.len() > 0 {
        let x = a.scopes[a.scopes.len() - 1];
        let y = b.scopes[b.scopes.len() - 1];
        let entry = ResolverVariable { initialized: true, usages: 0, line: name.line };
        assert forall|n: Seq<char>|
            #![trigger x.insert(name.name@, entry).contains_key(n)]
            #![trigger y.insert(name.name@, entry).contains_key(n)]
            x.insert(name.name@, entry).contains_key(n) == y.insert(name.name@, entry).contains_key(
                n,
            ) && (x.insert(name.name@, entry).contains_key(n) ==> x.insert(
                name.name@,
                entry,
            )[n].initialized == y.insert(name.name@, entry)[n].initialized && x.insert(
                name.name@,
                entry,
            )[n].line == y.insert(name.name@, entry)[n].line) by {
            assert(x.contains_key(n) == y.contains_key(n));
        }
    }
}

proof fn lemma_declared_kept(a: Resolution, b: Resolution, statement: StatementView)
    requires
        kept(a, b),
    ensures
        kept(declared(a, statement), declared(b, statement)),
        outer_same(declared(a, statement), a),
    decreases statement,
{
    match statement {
        StatementView::VariableDeclaration(name, _) => {
            lemma_kept_define(a, b, name);
        },
        StatementView::ClassDeclaration(name, _) => {
            lemma_kept_define(a, b, name);
        },
        StatementView::FunctionDeclaration(function) => {
            match function.identifier {
                Some(name) => {
                    lemma_kept_define(a, b, name);
                },
                None => {},
            }
        },
        StatementView::IfStatement(_, then_branch, else_branch) => {
            lemma_declared_kept(a, b, *then_branch);
            match else_branch {
                Some(branch) => {
                    lemma_declared_kept(declared(a, *then_branch), declared(b, *then_branch), *branch);
                },
                None => {},
            }
        },
        StatementView::WhileStatement(_, body) => {
            lemma_declared_kept(a, b, *body);
        },
        _ => {},
    }
}

proof fn lemma_declared_all_kept(
    a: Resolution,
    b: Resolution,
    statements: Seq<StatementView>,
    from: int,
)
    requires
        kept(a, b),
    ensures
        kept(declared_all(a, statements, from), declared_all(b, statements, from)),
        outer_same(declared_all(a, statements, from), a),
    decreases statements.len() - from,
{
    if 0 <= from < statements.len() {
        lemma_declared_kept(a, b, statements[from]);
        lemma_declared_all_kept(
            declared(a, statements[from]),
            declared(b, statements[from]),
            statements,
            from + 1,
        );
    }
}

proof fn lemma_parameters_outer(state: Resolution, parameters: Seq<Identifier>, from: int)
    ensures
        outer_same(declare_parameters(state, parameters, from).0, state),
    decreases parameters.len() - from,
{
    if 0 <= from < parameters.len() {
        match state.declare(parameters[from]) {
            Ok(entered) => {
                lemma_parameters_outer(entered.define(parameters[from]), parameters, from + 1);
            },
            Err(_) => {},
        }
    }
}

proof fn lemma_count_kept(state: Resolution, name: Seq<char>)
    ensures
        kept(state.count(name), state),
{
}

#[verifier::spinoff_prover]
proof fn lemma_expression_kept(state: Resolution, node: NodeView)
    ensures
        match resolve_expression(state, node) {
            (after, Ok(_)) => kept(after, state),
            (_, Err(_)) => true,
        },
    decreases node, 0nat,
{
    match node.expr {
        ExpressionView::Variable(variable) => {
            lemma_count_kept(state, variable.identifier.name@);
        },
        ExpressionView::GetExpression(_, object) => {
            lemma_expression_kept(state, *object);
        },
        ExpressionView::SetExpression(object, _, value) => {
            lemma_expression_kept(state, *value);
            lemma_expression_kept(resolve_expression(state, *value).0, *object);
            lemma_pair_kept(state, *value, *object);
        },
        ExpressionView::Assignment(_, value) => {
            lemma_expression_kept(state, *value);
        },
        ExpressionView::BinaryExpression(left, _, right) => {
            lemma_expression_kept(state, *left);
            lemma_expression_kept(resolve_expression(state, *left).0, *right);
            lemma_pair_kept(state, *left, *right);
        },
        ExpressionView::Or(left, _, right) => {
            lemma_expression_kept(state, *left);
            lemma_expression_kept(resolve_expression(state, *left).0, *right);
            lemma_pair_kept(state, *left, *right);
        },
        ExpressionView::And(left, _, right) => {
            lemma_expression_kept(state, *left);
            lemma_expression_kept(resolve_expression(state, *left).0, *right);
            lemma_pair_kept(state, *left, *right);
        },
        ExpressionView::CallExpression(callee, _, arguments) => {
            lemma_expression_kept(state, *callee);
            match resolve_expression(state, *callee) {
                (middle, Ok(_)) => {
                    lemma_expressions_kept(middle, arguments, 0, Seq::empty());
                    match resolve_expressions(middle, arguments, 0, Seq::empty()) {
                        (after, Ok(_)) => {
                            lemma_kept_transitive(after, middle, state);
                        },
                        (_, Err(_)) => {},
                    }
                },
                (_, Err(_)) => {},
            }
        },
        ExpressionView::Grouping(inner) => {
            lemma_expression_kept(state, *inner);
        },
        ExpressionView::Literal(_) => {},
        ExpressionView::Unary(_, operand) => {
            lemma_expression_kept(state, *operand);
        },
        ExpressionView::TernaryExpression(condition, _, first, second) => {
            lemma_expression_kept(state, *condition);
            match resolve_expression(state, *condition) {
                (one, Ok(_)) => {
                    lemma_expression_kept(one, *first);
                    lemma_expression_kept(resolve_expression(one, *first).0, *second);
                    lemma_pair_kept(one, *first, *second);
                    match resolve_expression(one, *first) {
                        (two, Ok(_)) => match resolve_expression(two, *second) {
                            (three, Ok(_)) => {
                                lemma_kept_transitive(three, one, state);
                            },
                            (_, Err(_)) => {},
                        },
                        (_, Err(_)) => {},
                    }
                },
                (_, Err(_)) => {},
            }
        },
        ExpressionView::FunctionExpression(function) => {
            lemma_function_kept(state, *function);
        },
    }
}

/// Two expressions resolved one after the other leave the state as it was,
/// but for the counts of references, where each of them does.
proof fn lemma_pair_kept(state: Resolution, first: NodeView, second: NodeView)
    requires
        match resolve_expression(state, first) {
            (middle, Ok(_)) => kept(middle, state) && match resolve_expression(middle, second) {
                (after, Ok(_)) => kept(after, middle),
                (_, Err(_)) => true,
            },
            (_, Err(_)) => true,
        },
    ensures
        match resolve_expression(state, first) {
            (middle, Ok(_)) => match resolve_expression(middle, second) {
                (after, Ok(_)) => kept(after, state),
                (_, Err(_)) => true,
            },
            (_, Err(_)) => true,
        },
{
    match resolve_expression(state, first) {
        (middle, Ok(_)) => {
            match resolve_expression(middle, second) {
                (after, Ok(_)) => {
                    lemma_kept_transitive(after, middle, state);
                },
                (_, Err(_)) => {},
            }
        },
        (_, Err(_)) => {},
    }
}

proof fn lemma_expressions_kept(
    state: Resolution,
    nodes: Seq<NodeView>,
    from: int,
    done: Seq<NodeView>,
)
    ensures
        match resolve_expressions(state, nodes, from, done) {
            (after, Ok(_)) => kept(after, state),
            (_, Err(_)) => true,
        },
    decreases nodes, nodes.len() - from,
{
    if 0 <= from < nodes.len() {
        lemma_expression_kept(state, nodes[from]);
        match resolve_expression(state, nodes[from]) {
            (middle, Ok(node)) => {
                lemma_expressions_kept(middle, nodes, from + 1, done.push(node));
                match resolve_expressions(middle, nodes, from + 1, done.push(node)) {
                    (after, Ok(_)) => {
                        lemma_kept_transitive(after, middle, state);
                    },
                    (_, Err(_)) => {},
                }
            },
            (_, Err(_)) => {},
        }
    }
}

/// Resolving a function leaves the state as it was: what its parameters and
/// its body declare stays inside it.
proof fn lemma_function_kept(state: Resolution, function: FunctionView)
    ensures
        match resolve_function(state, function) {
            (after, Ok(_)) => after == state,
            (_, Err(_)) => true,
        },
    decreases function, 2nat,
{
    let inside = Resolution { scopes: state.scopes.push(Map::empty()), in_function: true };
    lemma_parameters_outer(inside, function.parameters, 0);
    let (entered, refused) = declare_parameters(inside, function.parameters, 0);
    if refused.is_none() {
        lemma_statements_kept(entered, function.body, 0, Seq::empty());
        match resolve_statements(entered, function.body, 0, Seq::empty()) {
            (body, Ok(_)) => {
                lemma_declared_all_kept(entered, entered, function.body, 0);
                assert forall|i: int| 0 <= i < state.scopes.len() implies body.scopes[i]
                    == state.scopes[i] by {
                    assert(body.scopes[i] == declared_all(entered, function.body, 0).scopes[i]);
                    assert(entered.scopes[i] == inside.scopes[i]);
                }
                assert(body.end().scopes =~= state.scopes);
            },
            (_, Err(_)) => {},
        }
    }
}

proof fn lemma_statements_kept(
    state: Resolution,
    statements: Seq<StatementView>,
    from: int,
    done: Seq<StatementView>,
)
    ensures
        match resolve_statements(state, statements, from, done) {
            (after, Ok(_)) => kept(after, declared_all(state, statements, from)),
            (_, Err(_)) => true,
        },
    decreases statements, statements.len() - from,
{
    if 0 <= from < statements.len() {
        law_scope_gains_what_is_declared(state, statements[from]);
        match resolve_statement(state, statements[from]) {
            (middle, Ok(statement)) => {
                lemma_statements_kept(middle, statements, from + 1, done.push(statement));
                match resolve_statements(middle, statements, from + 1, done.push(statement)) {
                    (after, Ok(_)) => {
                        lemma_declared_all_kept(
                            middle,
                            declared(state, statements[from]),
                            statements,
                            from + 1,
                        );
                        lemma_kept_transitive(
                            after,
                            declared_all(middle, statements, from + 1),
                            declared_all(state, statements, from),
                        );
                    },
                    (_, Err(_)) => {},
                }
            },
            (_, Err(_)) => {},
        }
    }
}

/// Over the tree: resolving a statement changes the scopes in one way only.
/// The innermost scope gains the names that the statement declares in it,
/// with the lines they are declared on, and keeps every other name as it
/// held it; the scopes around it stay as they are. So a scope holds exactly
/// the names that were declared in its block, or as parameters of its
/// function, before the place that is being resolved.
#[verifier::spinoff_prover]
pub proof fn law_scope_gains_what_is_declared(state: Resolution, statement: StatementView)
    ensures
        match resolve_statement(state, statement) {
            (after, Ok(_)) => kept(after, declared(state, statement)),
            (_, Err(_)) => true,
        },
    decreases statement, 0nat,
{
    match statement {
        StatementView::BlockStatement(statements) => {
            lemma_statements_kept(state.begin(), statements, 0, Seq::empty());
            match resolve_statements(state.begin(), statements, 0, Seq::empty()) {
                (inner, Ok(_)) => {
                    lemma_declared_all_kept(state.begin(), state.begin(), statements, 0);
                    assert forall|i: int| 0 <= i < state.scopes.len() implies inner.scopes[i]
                        == state.scopes[i] by {
                        assert(inner.scopes[i] == declared_all(
                            state.begin(),
                            statements,
                            0,
                        ).scopes[i]);
                        assert(state.begin().scopes[i] == state.scopes[i]);
                    }
                    assert(inner.end().scopes =~= state.scopes);
                },
                (_, Err(_)) => {},
            }
        },
        StatementView::VariableDeclaration(name, initializer) => {
            match state.declare(name) {
                Ok(entered) => {
                    match initializer {
                        Some(expression) => {
                            lemma_expression_kept(entered, *expression);
                            match resolve_expression(entered, *expression) {
                                (middle, Ok(_)) => {
                                    lemma_kept_define(middle, entered, name);
                                    lemma_entered_define(state, name);
                                    lemma_kept_transitive(
                                        middle.define(name),
                                        entered.define(name),
                                        state.define(name),
                                    );
                                },
                                (_, Err(_)) => {},
                            }
                        },
                        None => {
                            lemma_entered_define(state, name);
                        },
                    }
                },
                Err(_) => {},
            }
        },
        StatementView::FunctionDeclaration(function) => {
            match function.identifier {
                Some(name) => match state.declare(name) {
                    Ok(entered) => {
                        lemma_function_kept(entered.define(name), *function);
                        lemma_entered_define(state, name);
                    },
                    Err(_) => {},
                },
                None => {
                    lemma_function_kept(state, *function);
                },
            }
        },
        StatementView::ClassDeclaration(name, _) => {
            lemma_entered_define(state, name);
        },
        StatementView::ExpressionStatement(expression) => {
            lemma_expression_kept(state, *expression);
        },
        StatementView::PrintStatement(expression) => {
            lemma_expression_kept(state, *expression);
        },
        StatementView::IfStatement(condition, then_branch, else_branch) => {
            lemma_expression_kept(state, *condition);
            match resolve_expression(state, *condition) {
                (one, Ok(_)) => {
                    law_scope_gains_what_is_declared(one, *then_branch);
                    match resolve_statement(one, *then_branch) {
                        (two, Ok(_)) => {
                            lemma_declared_kept(one, state, *then_branch);
                            lemma_kept_transitive(
                                two,
                                declared(one, *then_branch),
                                declared(state, *then_branch),
                            );
                            match else_branch {
                                Some(branch) => {
                                    law_scope_gains_what_is_declared(two, *branch);
                                    match resolve_statement(two, *branch) {
                                        (three, Ok(_)) => {
                                            lemma_declared_kept(
                                                two,
                                                declared(state, *then_branch),
                                                *branch,
                                            );
                                            lemma_kept_transitive(
                                                three,
                                                declared(two, *branch),
                                                declared(declared(state, *then_branch), *branch),
                                            );
                                        },
                                        (_, Err(_)) => {},
                                    }
                                },
                                None => {},
                            }
                        },
                        (_, Err(_)) => {},
                    }
                },
                (_, Err(_)) => {},
            }
        },
        StatementView::ReturnStatement(_, value) => {
            match value {
                Some(expression) => {
                    lemma_expression_kept(state, *expression);
                },
                None => {},
            }
        },
        StatementView::WhileStatement(condition, body) => {
            lemma_expression_kept(state, *condition);
            match resolve_expression(state, *condition) {
                (one, Ok(_)) => {
                    law_scope_gains_what_is_declared(one, *body);
                    match resolve_statement(one, *body) {
                        (two, Ok(_)) => {
                            lemma_declared_kept(one, state, *body);
                            lemma_kept_transitive(
                                two,
                                declared(one, *body),
                                declared(state, *body),
                            );
                        },
                        (_, Err(_)) => {},
                    }
                },
                (_, Err(_)) => {},
            }
        },
    }
}

/// A name that was declared and is then defined stands in its scope as a
/// name that was defined at once.
proof fn lemma_entered_define(state: Resolution, name: Identifier)
    ensures
        match state.declare(name) {
            Ok(entered) => entered.define(name) == state.define(name),
            Err(_) => true,
        },
{
    if state.scopes.len() > 0 {
        match state.declare(name) {
            Ok(entered) => {
                assert(entered.define(name).scopes[state.scopes.len() - 1] =~= state.define(
                    name,
                ).scopes[state.scopes.len() - 1]);
                assert(entered.define(name).scopes =~= state.define(name).scopes);
            },
            Err(_) => {},
        }
    }
}

proof fn lemma_variable_again(state: Resolution, variable: Variable)
    ensures
        match state.resolve_variable(variable) {
            Ok(resolved) => state.resolve_variable(resolved) == Ok::<Variable, ErrorView>(resolved),
            Err(_) => true,
        },
{
}

#[verifier::spinoff_prover]
proof fn lemma_expression_again(state: Resolution, node: NodeView)
    ensures
        match resolve_expression(state, node) {
            (after, Ok(resolved)) => resolve_expression(state, resolved) == (
                after,
                Ok::<NodeView, ErrorView>(resolved),
            ),
            (_, Err(_)) => true,
        },
    decreases node, 0nat,
{
    match node.expr {
        ExpressionView::Variable(variable) => {
            lemma_variable_again(state.count(variable.identifier.name@), variable);
        },
        ExpressionView::GetExpression(_, object) => {
            lemma_expression_again(state, *object);
        },
        ExpressionView::SetExpression(object, _, value) => {
            lemma_expression_again(state, *value);
            lemma_expression_again(resolve_expression(state, *value).0, *object);
        },
        ExpressionView::Assignment(variable, value) => {
            lemma_expression_again(state, *value);
            lemma_variable_again(resolve_expression(state, *value).0, variable);
        },
        ExpressionView::BinaryExpression(left, _, right) => {
            lemma_expression_again(state, *left);
            lemma_expression_again(resolve_expression(state, *left).0, *right);
        },
        ExpressionView::Or(left, _, right) => {
            lemma_expression_again(state, *left);
            lemma_expression_again(resolve_expression(state, *left).0, *right);
        },
        ExpressionView::And(left, _, right) => {
            lemma_expression_again(state, *left);
            lemma_expression_again(resolve_expression(state, *left).0, *right);
        },
        ExpressionView::CallExpression(callee, _, arguments) => {
            lemma_expression_again(state, *callee);
            let (middle, first) = resolve_expression(state, *callee);
            if first is Ok {
                match resolve_expressions(middle, arguments, 0, Seq::empty()) {
                    (_, Ok(resolved)) => {
                        lemma_expressions_length(middle, arguments, 0, Seq::empty());
                        lemma_expressions_again(middle, arguments, resolved, 0, Seq::empty());
                        assert(resolved.subrange(0, resolved.len() as int) =~= resolved);
                    },
                    (_, Err(_)) => {},
                }
            }
        },
        ExpressionView::Grouping(inner) => {
            lemma_expression_again(state, *inner);
        },
        ExpressionView::Literal(_) => {},
        ExpressionView::Unary(_, operand) => {
            lemma_expression_again(state, *operand);
        },
        ExpressionView::TernaryExpression(condition, _, first, second) => {
            lemma_expression_again(state, *condition);
            let one = resolve_expression(state, *condition).0;
            lemma_expression_again(one, *first);
            lemma_expression_again(resolve_expression(one, *first).0, *second);
        },
        ExpressionView::FunctionExpression(function) => {
            lemma_function_again(state, *function);
        },
    }
}

proof fn lemma_expressions_length(
    state: Resolution,
    nodes: Seq<NodeView>,
    from: int,
    done: Seq<NodeView>,
)
    requires
        0 <= from <= nodes.len(),
    ensures
        match resolve_expressions(state, nodes, from, done) {
            (_, Ok(resolved)) => resolved.len() == done.len() + nodes.len() - from
                && resolved.subrange(0, done.len() as int) == done,
            (_, Err(_)) => true,
        },
    decreases nodes.len() - from,
{
    if from < nodes.len() {
        match resolve_expression(state, nodes[from]) {
            (after, Ok(node)) => {
                lemma_expressions_length(after, nodes, from + 1, done.push(node));
                match resolve_expressions(after, nodes, from + 1, done.push(node)) {
                    (_, Ok(resolved)) => {
                        assert(resolved.subrange(0, done.len() as int) =~= resolved.subrange(
                            0,
                            done.len() as int + 1,
                        ).subrange(0, done.len() as int));
                        assert(done.push(node).subrange(0, done.len() as int) =~= done);
                    },
                    (_, Err(_)) => {},
                }
            },
            (_, Err(_)) => {},
        }
    } else {
        assert(done.subrange(0, done.len() as int) =~= done);
    }
}

/// Resolving the outcome of a list of expressions, from the place where the
/// list was taken up, gives the outcome again.
proof fn lemma_expressions_again(
    state: Resolution,
    nodes: Seq<NodeView>,
    outcome: Seq<NodeView>,
    from: int,
    done: Seq<NodeView>,
)
    requires
        0 <= from <= nodes.len(),
        resolve_expressions(state, nodes, from, done).1 == Ok::<Seq<NodeView>, ErrorView>(outcome),
        outcome.len() == done.len() + nodes.len() - from,
    ensures
        resolve_expressions(
            state,
            outcome.subrange(done.len() as int, outcome.len() as int),
            0,
            done,
        ) == resolve_expressions(state, nodes, from, done),
    decreases nodes, nodes.len() - from,
{
    let rest = outcome.subrange(done.len() as int, outcome.len() as int);
    if from < nodes.len() {
        lemma_expression_again(state, nodes[from]);
        match resolve_expression(state, nodes[from]) {
            (after, Ok(node)) => {
                let next = done.push(node);
                lemma_expressions_length(after, nodes, from + 1, next);
                lemma_expressions_again(after, nodes, outcome, from + 1, next);
                assert(outcome.subrange(0, next.len() as int) == next);
                assert(outcome[done.len() as int] == next[done.len() as int]);
                assert(rest[0] == node);
                let tail = outcome.subrange(next.len() as int, outcome.len() as int);
                assert(tail =~= rest.subrange(1, rest.len() as int));
                lemma_shift_expressions(after, rest, tail, 1, next);
            },
            (_, Err(_)) => {},
        }
    } else {
        lemma_expressions_length(state, nodes, from, done);
    }
}

/// A list of expressions is resolved from a place on as its rest is from the start.
proof fn lemma_shift_expressions(
    state: Resolution,
    nodes: Seq<NodeView>,
    tail: Seq<NodeView>,
    from: int,
    done: Seq<NodeView>,
)
    requires
        0 <= from <= nodes.len(),
        tail == nodes.subrange(from, nodes.len() as int),
    ensures
        resolve_expressions(state, nodes, from, done) == resolve_expressions(state, tail, 0, done),
    decreases nodes.len() - from,
{
    if from < nodes.len() {
        assert(tail[0] == nodes[from]);
        match resolve_expression(state, nodes[from]) {
            (after, Ok(node)) => {
                let shorter = nodes.subrange(from + 1, nodes.len() as int);
                lemma_shift_expressions(after, nodes, shorter, from + 1, done.push(node));
                assert(shorter == tail.subrange(1, tail.len() as int));
                lemma_shift_expressions(after, tail, shorter, 1, done.push(node));
            },
            (_, Err(_)) => {},
        }
    }
}

proof fn lemma_function_again(state: Resolution, function: FunctionView)
    ensures
        match resolve_function(state, function) {
            (after, Ok(resolved)) => resolve_function(state, resolved) == (
                after,
                Ok::<FunctionView, ErrorView>(resolved),
            ),
            (_, Err(_)) => true,
        },
    decreases function, 2nat,
{
    let inside = Resolution { scopes: state.scopes.push(Map::empty()), in_function: true };
    let (declared, refused) = declare_parameters(inside, function.parameters, 0);
    if refused.is_none() {
        match resolve_statements(declared, function.body, 0, Seq::empty()) {
            (_, Ok(resolved)) => {
                lemma_statements_length(declared, function.body, 0, Seq::empty());
                lemma_statements_again(declared, function.body, resolved, 0, Seq::empty());
                assert(resolved.subrange(0, resolved.len() as int) =~= resolved);
            },
            (_, Err(_)) => {},
        }
    }
}

proof fn lemma_statements_length(
    state: Resolution,
    statements: Seq<StatementView>,
    from: int,
    done: Seq<StatementView>,
)
    requires
        0 <= from <= statements.len(),
    ensures
        match resolve_statements(state, statements, from, done) {
            (_, Ok(resolved)) => resolved.len() == done.len() + statements.len() - from
                && resolved.subrange(0, done.len() as int) == done,
            (_, Err(_)) => true,
        },
    decreases statements.len() - from,
{
    if from < statements.len() {
        match resolve_statement(state, statements[from]) {
            (after, Ok(statement)) => {
                lemma_statements_length(after, statements, from + 1, done.push(statement));
                match resolve_statements(after, statements, from + 1, done.push(statement)) {
                    (_, Ok(resolved)) => {
                        assert(resolved.subrange(0, done.len() as int) =~= resolved.subrange(
                            0,
                            done.len() as int + 1,
                        ).subrange(0, done.len() as int));
                        assert(done.push(statement).subrange(0, done.len() as int) =~= done);
                    },
                    (_, Err(_)) => {},
                }
            },
            (_, Err(_)) => {},
        }
    } else {
        assert(done.subrange(0, done.len() as int) =~= done);
    }
}

/// Resolving the outcome of a list of statements, from the place where the
/// list was taken up, gives the outcome again.
proof fn lemma_statements_again(
    state: Resolution,
    statements: Seq<StatementView>,
    outcome: Seq<StatementView>,
    from: int,
    done: Seq<StatementView>,
)
    requires
        0 <= from <= statements.len(),
        resolve_statements(state, statements, from, done).1 == Ok::<
            Seq<StatementView>,
            ErrorView,
        >(outcome),
        outcome.len() == done.len() + statements.len() - from,
    ensures
        resolve_statements(
            state,
            outcome.subrange(done.len() as int, outcome.len() as int),
            0,
            done,
        ) == resolve_statements(state, statements, from, done),
    decreases statements, statements.len() - from,
{
    let rest = outcome.subrange(done.len() as int, outcome.len() as int);
    if from < statements.len() {
        law_resolving_again_changes_nothing(state, statements[from]);
        match resolve_statement(state, statements[from]) {
            (after, Ok(statement)) => {
                let next = done.push(statement);
                lemma_statements_length(after, statements, from + 1, next);
                lemma_statements_again(after, statements, outcome, from + 1, next);
                assert(outcome.subrange(0, next.len() as int) == next);
                assert(outcome[done.len() as int] == next[done.len() as int]);
                assert(rest[0] == statement);
                let tail = outcome.subrange(next.len() as int, outcome.len() as int);
                assert(tail =~= rest.subrange(1, rest.len() as int));
                lemma_shift_statements(after, rest, tail, 1, next);
            },
            (_, Err(_)) => {},
        }
    } else {
        lemma_statements_length(state, statements, from, done);
    }
}

/// A list of statements is resolved from a place on as its rest is from the start.
proof fn lemma_shift_statements(
    state: Resolution,
    statements: Seq<StatementView>,
    tail: Seq<StatementView>,
    from: int,
    done: Seq<StatementView>,
)
    requires
        0 <= from <= statements.len(),
        tail == statements.subrange(from, statements.len() as int),
    ensures
        resolve_statements(state, statements, from, done) == resolve_statements(
            state,
            tail,
            0,
            done,
        ),
    decreases statements.len() - from,
{
    if from < statements.len() {
        assert(tail[0] == statements[from]);
        match resolve_statement(state, statements[from]) {
            (after, Ok(statement)) => {
                let shorter = statements.subrange(from + 1, statements.len() as int);
                lemma_shift_statements(after, statements, shorter, from + 1, done.push(statement));
                assert(shorter == tail.subrange(1, tail.len() as int));
                lemma_shift_statements(after, tail, shorter, 1, done.push(statement));
            },
            (_, Err(_)) => {},
        }
    }
}

/// Resolving is idempotent: a statement that has been resolved is resolved
/// to itself, from the same state and with the same state after it. The
/// depths are written anew, never added to.
#[verifier::spinoff_prover]
pub proof fn law_resolving_again_changes_nothing(state: Resolution, statement: StatementView)
    ensures
        match resolve_statement(state, statement) {
            (after, Ok(resolved)) => resolve_statement(state, resolved) == (
                after,
                Ok::<StatementView, ErrorView>(resolved),
            ),
            (_, Err(_)) => true,
        },
    decreases statement, 0nat,
{
    match statement {
        StatementView::BlockStatement(statements) => {
            match resolve_statements(state.begin(), statements, 0, Seq::empty()) {
                (_, Ok(resolved)) => {
                    lemma_statements_length(state.begin(), statements, 0, Seq::empty());
                    lemma_statements_again(state.begin(), statements, resolved, 0, Seq::empty());
                    assert(resolved.subrange(0, resolved.len() as int) =~= resolved);
                },
                (_, Err(_)) => {},
            }
        },
        StatementView::VariableDeclaration(name, initializer) => {
            match (state.declare(name), initializer) {
                (Ok(declared), Some(expression)) => {
                    lemma_expression_again(declared, *expression);
                },
                _ => {},
            }
        },
        StatementView::FunctionDeclaration(function) => {
            match function.identifier {
                Some(name) => match state.declare(name) {
                    Ok(declared) => {
                        lemma_function_again(declared.define(name), *function);
                    },
                    Err(_) => {},
                },
                None => {
                    lemma_function_again(state, *function);
                },
            }
        },
        StatementView::ClassDeclaration(_, _) => {},
        StatementView::ExpressionStatement(expression) => {
            lemma_expression_again(state, *expression);
        },
        StatementView::PrintStatement(expression) => {
            lemma_expression_again(state, *expression);
        },
        StatementView::IfStatement(condition, then_branch, else_branch) => {
            lemma_expression_again(state, *condition);
            let one = resolve_expression(state, *condition).0;
            law_resolving_again_changes_nothing(one, *then_branch);
            match else_branch {
                Some(branch) => {
                    law_resolving_again_changes_nothing(
                        resolve_statement(one, *then_branch).0,
                        *branch,
                    );
                },
                None => {},
            }
        },
        StatementView::ReturnStatement(_, value) => {
            match value {
                Some(expression) => {
                    lemma_expression_again(state, *expression);
                },
                None => {},
            }
        },
        StatementView::WhileStatement(condition, body) => {
            lemma_expression_again(state, *condition);
            law_resolving_again_changes_nothing(resolve_expression(state, *condition).0, *body);
        },
    }
}

/// The view of the result of resolving an expression.
pub open spec fn node_result(result: Result<ExpressionNode, Error>) -> Result<NodeView, ErrorView> {
    match result {
        Ok(node) => Ok(node@),
        Err(error) => Err(error@),
    }
}

/// The view of the result of resolving a statement.
pub open spec fn statement_result(result: Result<Statement, Error>) -> Result<
    StatementView,
    ErrorView,
> {
    match result {
        Ok(statement) => Ok(statement@),
        Err(error) => Err(error@),
    }
}

/// The view of the result of resolving a list of statements.
pub open spec fn statements_result(result: Result<Vec<Statement>, Error>) -> Result<
    Seq<StatementView>,
    ErrorView,
> {
    match result {
        Ok(statements) => Ok(statement_views(statements@)),
        Err(error) => Err(error@),
    }
}

/// A copy of a list of identifiers.
pub fn copy_identifiers(identifiers: &Vec<Identifier>) -> (r: Vec<Identifier>)
    ensures
        r@ == identifiers@,
{
    let mut r: Vec<Identifier> = Vec::new();
    let mut i: usize = 0;
    while i < identifiers.len()
        invariant
            i <= identifiers.len(),
            r@ == identifiers@.subrange(0, i as int),
        decreases identifiers.len() - i,
    {
        r.push(identifiers[i].clone());
        i += 1;
        assert(r@ =~= identifiers@.subrange(0, i as int));
    }
    assert(identifiers@.subrange(0, i as int) =~= identifiers@);
    r
}

/// Gives every reference to a variable its depth, and finds the static errors.
#[derive(Debug)]
pub struct Resolver {
    pub scopes: Vec<Scope>,
    pub current_function: FunctionKind,
}

impl View for Resolver {
    type V = Resolution;

    open spec fn view(&self) -> Resolution {
        Resolution {
            scopes: self.scopes@.map_values(|s: Scope| s@),
            in_function: self.current_function == FunctionKind::Function,
        }
    }
}

impl Resolver {
    /// Every scope is well formed.
    pub open spec fn wf(&self) -> bool {
        forall|i: int| 0 <= i < self.scopes@.len() ==> (#[trigger] self.scopes@[i]).wf()
    }

    /// A resolver outside every scope and every function.
    pub fn new() -> (r: Self)
        ensures
            r.wf(),
            r@ == (Resolution { scopes: Seq::empty(), in_function: false }),
    {
        let r = Self { scopes: Vec::new(), current_function: FunctionKind::TopLevel };
        assert(r@.scopes =~= Seq::<ScopeView>::empty());
        r
    }

    /// The innermost scope, if there is one.
    pub fn peek_scope(&self) -> (r: Option<&Scope>)
        ensures
            match r {
                Some(scope) => self.scopes@.len() > 0 && *scope == self.scopes@[self.scopes@.len()
                    - 1],
                None => self.scopes@.len() == 0,
            },
    {
        if self.scopes.len() == 0 {
            None
        } else {
            Some(&self.scopes[self.scopes.len() - 1])
        }
    }

    /// Opens a scope.
    pub fn begin_scope(&mut self)
        requires
            old(self).wf(),
        ensures
            final(self).wf(),
            final(self)@ == old(self)@.begin(),
    {
        self.scopes.push(Scope::new());
        assert(final(self)@.scopes =~= old(self)@.begin().scopes);
    }

    /// Closes the innermost scope.
    pub fn end_scope(&mut self)
        requires
            old(self).wf(),
        ensures
            final(self).wf(),
            final(self)@ == old(self)@.end(),
    {
        self.scopes.pop();
        assert(final(self)@.scopes =~= old(self)@.end().scopes);
    }

    /// Enters `name` in the innermost scope.
    fn enter(&mut self, name: &Identifier, variable: ResolverVariable)
        requires
            old(self).wf(),
        ensures
            final(self).wf(),
            final(self)@ == old(self)@.enter(name.name@, variable),
    {
        let count = self.scopes.len();
        if count > 0 {
            let scope = &mut self.scopes[count - 1];
            scope.insert(name.name.clone(), variable);
            assert(final(self)@.scopes =~= old(self)@.enter(name.name@, variable).scopes);
        }
    }

    /// Counts a reference to `name`: the count is kept with the name in the
    /// innermost scope, where that scope holds it.
    pub fn count(&mut self, name: &Identifier)
        requires
            old(self).wf(),
        ensures
            final(self).wf(),
            final(self)@ == old(self)@.count(name.name@),
    {
        let count = self.scopes.len();
        if count > 0 {
            let scope = &mut self.scopes[count - 1];
            scope.count(&name.name);
            assert(final(self)@.scopes =~= old(self)@.count(name.name@).scopes);
        }
    }

    /// Declares a local variable: its name is known, its value is not yet.
    pub fn declare(&mut self, name: &Identifier) -> (r: Result<(), Error>)
        requires
            old(self).wf(),
        ensures
            final(self).wf(),
            match r {
                Ok(_) => old(self)@.declare(*name) == Ok::<Resolution, ErrorView>(final(self)@),
                Err(error) => old(self)@.declare(*name) == Err::<Resolution, ErrorView>(error@)
                    && final(self)@ == old(self)@,
            },
    {
        let count = self.scopes.len();
        if count > 0 {
            let held = self.scopes[count - 1].position(&name.name);
            if held.is_some() {
                return Err(
                    Error::at(
                        name.line,
                        name.name.as_str(),
                        "Already a variable with this name is in this scope.",
                    ),
                );
            }
        }
        self.enter(name, ResolverVariable::unresolved(name.line));
        Ok(())
    }

    /// Defines a local variable: from here on it can be referred to.
    pub fn define(&mut self, name: &Identifier)
        requires
            old(self).wf(),
        ensures
            final(self).wf(),
            final(self)@ == old(self)@.define(*name),
    {
        self.enter(name, ResolverVariable::resolved(name.line));
    }

    /// The reference with its depth.
    pub fn resolve_local(&self, variable: &Variable) -> (r: Result<Variable, Error>)
        requires
            self.wf(),
        ensures
            match r {
                Ok(resolved) => self@.resolve_variable(*variable) == Ok::<Variable, ErrorView>(
                    resolved,
                ),
                Err(error) => self@.resolve_variable(*variable) == Err::<Variable, ErrorView>(
                    error@,
                ),
            },
    {
        let count = self.scopes.len();
        let mut depth: usize = 0;
        let ghost scopes = self@.scopes;
        let ghost name = variable.identifier.name@;
        assert(scopes.subrange(0, count as int) =~= scopes);
        while depth < count
            invariant
                depth <= count == scopes.len(),
                self.wf(),
                scopes == self@.scopes,
                name == variable.identifier.name@,
                innermost(scopes, name, 0) == innermost(
                    scopes.subrange(0, count - depth),
                    name,
                    depth as nat,
                ),
            decreases count - depth,
        {
            let place = count - 1 - depth;
            let ghost rest = scopes.subrange(0, count - depth);
            assert(rest[rest.len() - 1] == scopes[place as int]);
            match self.scopes[place].position(&variable.identifier.name) {
                Some(entry) => {
                    if self.scopes[place].variables[entry].initialized {
                        return Ok(Variable::new(variable.identifier.clone(), Some(depth)));
                    } else {
                        return Err(
                            Error::at(
                                variable.identifier.line,
                                variable.identifier.name.as_str(),
                                "Can't read local variable in its own initializer.",
                            ),
                        );
                    }
                },
                None => {},
            }
            assert(rest.drop_last() =~= scopes.subrange(0, count - depth - 1));
            depth += 1;
        }
        Ok(Variable::new(variable.identifier.clone(), None))
    }

    /// Resolves an expression: the result is a copy in which every reference
    /// has its depth.
    #[verifier::spinoff_prover]
    pub fn resolve_expr(&mut self, expression: &ExpressionNode) -> (r: Result<
        ExpressionNode,
        Error,
    >)
        requires
            old(self).wf(),
        ensures
            final(self).wf(),
            resolve_expression(old(self)@, expression@) == (final(self)@, node_result(r)),
        decreases expression, 0nat,
    {
        let line = expression.line;
        match &expression.expr {
            Expression::Variable(variable) => {
                self.count(&variable.identifier);
                match self.resolve_local(variable) {
                    Ok(resolved) => Ok(ExpressionNode::new(line, Expression::Variable(resolved))),
                    Err(error) => Err(error),
                }
            },
            Expression::GetExpression(name, object) => match self.resolve_expr(object) {
                Ok(o) => Ok(
                    ExpressionNode::new(line, Expression::GetExpression(name.clone(), Box::new(o))),
                ),
                Err(error) => Err(error),
            },
            Expression::SetExpression(object, name, value) => match self.resolve_expr(value) {
                Ok(v) => match self.resolve_expr(object) {
                    Ok(o) => Ok(
                        ExpressionNode::new(
                            line,
                            Expression::SetExpression(Box::new(o), name.clone(), Box::new(v)),
                        ),
                    ),
                    Err(error) => Err(error),
                },
                Err(error) => Err(error),
            },
            Expression::Assignment(variable, value) => match self.resolve_expr(value) {
                Ok(v) => match self.resolve_local(variable) {
                    Ok(resolved) => Ok(
                        ExpressionNode::new(line, Expression::Assignment(resolved, Box::new(v))),
                    ),
                    Err(error) => Err(error),
                },
                Err(error) => Err(error),
            },
            Expression::BinaryExpression(left, operator, right) => match self.resolve_expr(left) {
                Ok(a) => match self.resolve_expr(right) {
                    Ok(b) => Ok(
                        ExpressionNode::new(
                            line,
                            Expression::BinaryExpression(Box::new(a), *operator, Box::new(b)),
                        ),
                    ),
                    Err(error) => Err(error),
                },
                Err(error) => Err(error),
            },
            Expression::Or(left, operator, right) => match self.resolve_expr(left) {
                Ok(a) => match self.resolve_expr(right) {
                    Ok(b) => Ok(
                        ExpressionNode::new(
                            line,
                            Expression::Or(Box::new(a), *operator, Box::new(b)),
                        ),
                    ),
                    Err(error) => Err(error),
                },
                Err(error) => Err(error),
            },
            Expression::And(left, operator, right) => match self.resolve_expr(left) {
                Ok(a) => match self.resolve_expr(right) {
                    Ok(b) => Ok(
                        ExpressionNode::new(
                            line,
                            Expression::And(Box::new(a), *operator, Box::new(b)),
                        ),
                    ),
                    Err(error) => Err(error),
                },
                Err(error) => Err(error),
            },
            Expression::CallExpression(callee, paren, arguments) => match self.resolve_expr(callee) {
                Ok(c) => match self.resolve_arguments(arguments) {
                    Ok(resolved) => Ok(
                        ExpressionNode::new(
                            line,
                            Expression::CallExpression(Box::new(c), paren.clone(), resolved),
                        ),
                    ),
                    Err(error) => Err(error),
                },
                Err(error) => Err(error),
            },
            Expression::Grouping(inner) => match self.resolve_expr(inner) {
                Ok(a) => Ok(ExpressionNode::new(line, Expression::Grouping(Box::new(a)))),
                Err(error) => Err(error),
            },
            Expression::Literal(literal) => Ok(
                ExpressionNode::new(line, Expression::Literal(literal.clone())),
            ),
            Expression::Unary(operator, operand) => match self.resolve_expr(operand) {
                Ok(a) => Ok(ExpressionNode::new(line, Expression::Unary(*operator, Box::new(a)))),
                Err(error) => Err(error),
            },
            Expression::TernaryExpression(condition, operator, first, second) => {
                match self.resolve_expr(condition) {
                    Ok(c) => match self.resolve_expr(first) {
                        Ok(a) => match self.resolve_expr(second) {
                            Ok(b) => Ok(
                                ExpressionNode::new(
                                    line,
                                    Expression::TernaryExpression(
                                        Box::new(c),
                                        *operator,
                                        Box::new(a),
                                        Box::new(b),
                                    ),
                                ),
                            ),
                            Err(error) => Err(error),
                        },
                        Err(error) => Err(error),
                    },
                    Err(error) => Err(error),
                }
            },
            Expression::FunctionExpression(function) => {
                match self.resolve_function(None, &function.parameters, &function.body) {
                    Ok((parameters, body)) => Ok(
                        ExpressionNode::new(
                            line,
                            Expression::FunctionExpression(
                                Rc::new(FunctionExpression::new(parameters, body)),
                            ),
                        ),
                    ),
                    Err(error) => Err(error),
                }
            },
        }
    }

    /// Resolves the arguments of a call, from left to right.
    #[verifier::loop_isolation(false)]
    fn resolve_arguments(&mut self, arguments: &Vec<ExpressionNode>) -> (r: Result<
        Vec<ExpressionNode>,
        Error,
    >)
        requires
            old(self).wf(),
        ensures
            final(self).wf(),
            resolve_expressions(old(self)@, node_views(arguments@), 0, Seq::empty()) == (
                final(self)@,
                match r {
                    Ok(nodes) => Ok::<Seq<NodeView>, ErrorView>(node_views(nodes@)),
                    Err(error) => Err::<Seq<NodeView>, ErrorView>(error@),
                },
            ),
        decreases arguments, 0nat,
    {
        let mut done: Vec<ExpressionNode> = Vec::new();
        let mut i: usize = 0;
        let ghost views = node_views(arguments@);
        assert(node_views(done@) =~= Seq::<NodeView>::empty());
        while i < arguments.len()
            invariant
                self.wf(),
                i <= arguments.len(),
                views == node_views(arguments@),
                resolve_expressions(old(self)@, views, 0, Seq::empty()) == resolve_expressions(
                    self@,
                    views,
                    i as int,
                    node_views(done@),
                ),
            decreases arguments.len() - i,
        {
            let ghost before = node_views(done@);
            match self.resolve_expr(&arguments[i]) {
                Ok(node) => {
                    done.push(node);
                    assert(node_views(done@) =~= before.push(node@));
                },
                Err(error) => {
                    return Err(error);
                },
            }
            i += 1;
        }
        Ok(done)
    }

    /// Resolves the body of a function in a scope of its own, which holds the
    /// parameters; gives back copies of the parameters and of the body.
    #[verifier::loop_isolation(false)]
    fn resolve_function(
        &mut self,
        name: Option<&Identifier>,
        parameters: &Vec<Identifier>,
        body: &Vec<Statement>,
    ) -> (r: Result<(Vec<Identifier>, Vec<Statement>), Error>)
        requires
            old(self).wf(),
        ensures
            final(self).wf(),
            resolve_function(
                old(self)@,
                FunctionView {
                    identifier: owned(name),
                    parameters: parameters@,
                    body: statement_views(body@),
                },
            ) == (
                final(self)@,
                match r {
                    Ok((names, statements)) => Ok::<FunctionView, ErrorView>(
                        FunctionView {
                            identifier: owned(name),
                            parameters: names@,
                            body: statement_views(statements@),
                        },
                    ),
                    Err(error) => Err::<FunctionView, ErrorView>(error@),
                },
            ),
        decreases body, 1nat,
    {
        let enclosing = self.current_function;
        self.current_function = FunctionKind::Function;
        self.scopes.push(Scope::new());
        let ghost inside = self@;
        assert(inside.scopes =~= old(self)@.scopes.push(Map::empty()));
        let mut i: usize = 0;
        while i < parameters.len()
            invariant
                self.wf(),
                i <= parameters.len(),
                declare_parameters(inside, parameters@, 0) == declare_parameters(
                    self@,
                    parameters@,
                    i as int,
                ),
            decreases parameters.len() - i,
        {
            match self.declare(&parameters[i]) {
                Ok(_) => {},
                Err(error) => {
                    return Err(error);
                },
            }
            self.define(&parameters[i]);
            i += 1;
        }
        match self.resolve_statements(body) {
            Ok(statements) => {
                self.end_scope();
                self.current_function = enclosing;
                Ok((copy_identifiers(parameters), statements))
            },
            Err(error) => Err(error),
        }
    }

    /// Resolves statements in order.
    #[verifier::loop_isolation(false)]
    pub fn resolve_statements(&mut self, statements: &Vec<Statement>) -> (r: Result<
        Vec<Statement>,
        Error,
    >)
        requires
            old(self).wf(),
        ensures
            final(self).wf(),
            resolve_statements(old(self)@, statement_views(statements@), 0, Seq::empty()) == (
                final(self)@,
                statements_result(r),
            ),
        decreases statements, 0nat,
    {
        let mut done: Vec<Statement> = Vec::new();
        let mut i: usize = 0;
        let ghost views = statement_views(statements@);
        assert(statement_views(done@) =~= Seq::<StatementView>::empty());
        while i < statements.len()
            invariant
                self.wf(),
                i <= statements.len(),
                views == statement_views(statements@),
                resolve_statements(old(self)@, views, 0, Seq::empty()) == resolve_statements(
                    self@,
                    views,
                    i as int,
                    statement_views(done@),
                ),
            decreases statements.len() - i,
        {
            let ghost before = statement_views(done@);
            match self.resolve_statement(&statements[i]) {
                Ok(statement) => {
                    done.push(statement);
                    assert(statement_views(done@) =~= before.push(statement@));
                },
                Err(error) => {
                    return Err(error);
                },
            }
            i += 1;
        }
        Ok(done)
    }

    /// Resolves a statement: the result is a copy in which every reference
    /// has its depth.
    #[verifier::spinoff_prover]
    pub fn resolve_statement(&mut self, statement: &Statement) -> (r: Result<Statement, Error>)
        requires
            old(self).wf(),
        ensures
            final(self).wf(),
            resolve_statement(old(self)@, statement@) == (final(self)@, statement_result(r)),
        decreases statement, 0nat,
    {
        match statement {
            Statement::BlockStatement(statements) => {
                self.begin_scope();
                match self.resolve_statements(statements) {
                    Ok(inner) => {
                        self.end_scope();
                        Ok(Statement::BlockStatement(inner))
                    },
                    Err(error) => Err(error),
                }
            },
            Statement::VariableDeclaration(name, initializer) => match self.declare(name) {
                Ok(_) => match initializer {
                    Some(expression) => match self.resolve_expr(expression) {
                        Ok(node) => {
                            self.define(name);
                            Ok(Statement::VariableDeclaration(name.clone(), Some(Box::new(node))))
                        },
                        Err(error) => Err(error),
                    },
                    None => {
                        self.define(name);
                        Ok(Statement::VariableDeclaration(name.clone(), None))
                    },
                },
                Err(error) => Err(error),
            },
            Statement::FunctionDeclaration(function) => match self.declare(&function.identifier) {
                Ok(_) => {
                    self.define(&function.identifier);
                    match self.resolve_function(
                        Some(&function.identifier),
                        &function.parameters,
                        &function.body,
                    ) {
                        Ok((parameters, body)) => Ok(
                            Statement::FunctionDeclaration(
                                Rc::new(
                                    FunctionDeclaration::new(
                                        function.identifier.clone(),
                                        parameters,
                                        body,
                                    ),
                                ),
                            ),
                        ),
                        Err(error) => Err(error),
                    }
                },
                Err(error) => Err(error),
            },
            Statement::ClassDeclaration(name, methods) => match self.declare(name) {
                Ok(_) => {
                    self.define(name);
                    Ok(Statement::ClassDeclaration(name.clone(), methods.clone()))
                },
                Err(error) => Err(error),
            },
            Statement::ExpressionStatement(expression) => match self.resolve_expr(expression) {
                Ok(node) => Ok(Statement::ExpressionStatement(Box::new(node))),
                Err(error) => Err(error),
            },
            Statement::PrintStatement(expression) => match self.resolve_expr(expression) {
                Ok(node) => Ok(Statement::PrintStatement(Box::new(node))),
                Err(error) => Err(error),
            },
            Statement::IfStatement(condition, then_branch, else_branch) => {
                match self.resolve_expr(condition) {
                    Ok(c) => match self.resolve_statement(then_branch) {
                        Ok(a) => match else_branch {
                            Some(branch) => match self.resolve_statement(branch) {
                                Ok(b) => Ok(
                                    Statement::IfStatement(
                                        Box::new(c),
                                        Box::new(a),
                                        Some(Box::new(b)),
                                    ),
                                ),
                                Err(error) => Err(error),
                            },
                            None => Ok(Statement::IfStatement(Box::new(c), Box::new(a), None)),
                        },
                        Err(error) => Err(error),
                    },
                    Err(error) => Err(error),
                }
            },
            Statement::ReturnStatement(line, value) => {
                if self.current_function == FunctionKind::TopLevel {
                    return Err(Error::at(*line, "return", "Can't return from top-level code."));
                }
                match value {
                    Some(expression) => match self.resolve_expr(expression) {
                        Ok(node) => Ok(Statement::ReturnStatement(*line, Some(Box::new(node)))),
                        Err(error) => Err(error),
                    },
                    None => Ok(Statement::ReturnStatement(*line, None)),
                }
            },
            Statement::WhileStatement(condition, body) => match self.resolve_expr(condition) {
                Ok(c) => match self.resolve_statement(body) {
                    Ok(b) => Ok(Statement::WhileStatement(Box::new(c), Box::new(b))),
                    Err(error) => Err(error),
                },
                Err(error) => Err(error),
            },
        }
    }
}

} // verus!
