use rust_lox::runtime::resolver::Scope;
use rust_lox::{
    Expression, FunctionKind, Identifier, Parser, Resolver, ResolverVariable, Scanner, Statement,
    Variable,
};

fn parse(source: &str) -> Vec<Statement> {
    let mut scanner = Scanner::new(source.to_string());
    scanner.scan_tokens();
    assert!(!scanner.had_error);
    let mut parser = Parser::new(scanner.tokens);
    let statements = parser.parse();
    assert!(parser.errors.is_empty(), "{:?}", parser.errors);
    statements
}

fn resolve(source: &str) -> Result<Vec<Statement>, rust_lox::Error> {
    Resolver::new().resolve_statements(&parse(source))
}

/// The depth of every reference of the statement, in the order of the text.
fn depths_of(statement: &Statement, found: &mut Vec<(String, Option<usize>)>) {
    match statement {
        Statement::PrintStatement(e) | Statement::ExpressionStatement(e) => depths_in(e, found),
        Statement::IfStatement(c, a, b) => {
            depths_in(c, found);
            depths_of(a, found);
            if let Some(b) = b {
                depths_of(b, found);
            }
        }
        Statement::WhileStatement(c, a) => {
            depths_in(c, found);
            depths_of(a, found);
        }
        Statement::ClassDeclaration(_, _) => {}
        Statement::VariableDeclaration(_, e) => {
            if let Some(e) = e {
                depths_in(e, found);
            }
        }
        Statement::FunctionDeclaration(function) => {
            for inner in &function.body {
                depths_of(inner, found);
            }
        }
        Statement::BlockStatement(inner) => {
            for statement in inner {
                depths_of(statement, found);
            }
        }
        Statement::ReturnStatement(_, e) => {
            if let Some(e) = e {
                depths_in(e, found);
            }
        }
    }
}

fn depths_in(node: &rust_lox::ExpressionNode, found: &mut Vec<(String, Option<usize>)>) {
    match &node.expr {
        Expression::TernaryExpression(c, _, a, b) => {
            depths_in(c, found);
            depths_in(a, found);
            depths_in(b, found);
        }
        Expression::BinaryExpression(a, _, b) | Expression::Or(a, _, b) | Expression::And(a, _, b) => {
            depths_in(a, found);
            depths_in(b, found);
        }
        Expression::Grouping(a) | Expression::Unary(_, a) | Expression::GetExpression(_, a) => {
            depths_in(a, found)
        }
        Expression::CallExpression(callee, _, arguments) => {
            depths_in(callee, found);
            for argument in arguments {
                depths_in(argument, found);
            }
        }
        Expression::SetExpression(object, _, value) => {
            depths_in(object, found);
            depths_in(value, found);
        }
        Expression::FunctionExpression(function) => {
            for inner in &function.body {
                depths_of(inner, found);
            }
        }
        Expression::Literal(_) => {}
        Expression::Variable(variable) => {
            found.push((variable.get_identifier().get_name(), variable.get_depth()))
        }
        Expression::Assignment(variable, value) => {
            found.push((variable.identifier.name.clone(), variable.depth));
            depths_in(value, found);
        }
    }
}

fn depths(source: &str) -> Vec<(String, Option<usize>)> {
    let resolved = resolve(source).expect(source);
    let mut found = Vec::new();
    for statement in &resolved {
        depths_of(statement, &mut found);
    }
    found
}

fn pairs(list: &[(&str, Option<usize>)]) -> Vec<(String, Option<usize>)> {
    list.iter().map(|(name, depth)| (name.to_string(), *depth)).collect()
}

#[test]
fn globals_have_no_depth() {
    assert_eq!(depths("var a = 1; print a; a = 2;"), pairs(&[("a", None), ("a", None)]));
    assert_eq!(depths("print unknown;"), pairs(&[("unknown", None)]));
}

#[test]
fn locals_have_the_number_of_scopes_between() {
    assert_eq!(
        depths("{ var a = 1; print a; { print a; { a = 2; } } }"),
        pairs(&[("a", Some(0)), ("a", Some(1)), ("a", Some(2))])
    );
    assert_eq!(
        depths("var g; { var a; { var b; print a + b + g; } }"),
        pairs(&[("a", Some(1)), ("b", Some(0)), ("g", None)])
    );
}

#[test]
fn the_innermost_declaration_counts() {
    assert_eq!(
        depths("{ var a = 1; { var a = 2; print a; } print a; }"),
        pairs(&[("a", Some(0)), ("a", Some(0))])
    );
}

#[test]
fn parameters_live_in_the_scope_of_the_body() {
    assert_eq!(
        depths("fun f(a, b) { print a; { print b; } return f; }"),
        pairs(&[("a", Some(0)), ("b", Some(1)), ("f", None)])
    );
    assert_eq!(
        depths("{ fun f(a) { return f(a); } }"),
        pairs(&[("f", Some(1)), ("a", Some(0))])
    );
    assert_eq!(
        depths("{ var x; var f = fun (y) { return x + y; }; }"),
        pairs(&[("x", Some(1)), ("y", Some(0))])
    );
}

#[test]
fn closures_see_the_scope_of_their_declaration() {
    assert_eq!(
        depths("var a=1; { fun f(){ return a; } var a=2; print f(); }"),
        pairs(&[("a", None), ("f", Some(0))])
    );
}

#[test]
fn depths_stay_below_the_number_of_scopes() {
    let source = "{ var a; { var b; fun f(c) { { var d; print a; print b; print c; print d; print e; } } } }";
    let found = depths(source);
    assert_eq!(
        found,
        pairs(&[("a", Some(3)), ("b", Some(2)), ("c", Some(1)), ("d", Some(0)), ("e", None)])
    );
    for (_, depth) in found {
        if let Some(depth) = depth {
            assert!(depth < 4);
        }
    }
}

#[test]
fn a_variable_cannot_be_read_in_its_own_initializer() {
    let error = resolve("{ var a = a; }").unwrap_err();
    assert_eq!(error.message, "Can't read local variable in its own initializer.");
    assert_eq!(error.line, 1);
    let error = resolve("{\n var a = 1;\n {\n var a = a + 1;\n }\n}").unwrap_err();
    assert_eq!(error.line, 4);
    assert!(resolve("var a = a;").is_ok());
    assert!(resolve("{ var a = 1; var b = a; }").is_ok());
}

#[test]
fn a_local_cannot_be_declared_twice() {
    let error = resolve("{ var a = 1;\n var a = 2; }").unwrap_err();
    assert_eq!(error.message, "Already a variable with this name is in this scope.");
    assert_eq!(error.line, 2);
    assert!(resolve("fun f(a, a) {}").is_err());
    assert!(resolve("fun f(a) { var a; }").is_err());
    assert!(resolve("{ fun f() {} var f; }").is_err());
    assert!(resolve("{ class C {} class C {} }").is_err());
    assert!(resolve("var a = 1; var a = 2;").is_ok());
    assert!(resolve("{ var a; { var a; } }").is_ok());
}

#[test]
fn return_needs_a_function() {
    let error = resolve("print 1;\nreturn 2;").unwrap_err();
    assert_eq!(error.message, "Can't return from top-level code.");
    assert_eq!(error.line, 2);
    assert!(resolve("{ return; }").is_err());
    assert!(resolve("if (true) return 1;").is_err());
    assert!(resolve("fun f() { return 1; }").is_ok());
    assert!(resolve("fun f() { if (true) { return; } }").is_ok());
    assert!(resolve("var f = fun () { return 1; };").is_ok());
    assert!(resolve("fun f() { fun g() { return 1; } } return 2;").is_err());
}

#[test]
fn the_first_error_ends_the_resolution() {
    let error = resolve("{ var a = a; }\nreturn;").unwrap_err();
    assert_eq!(error.line, 1);
}

#[test]
fn resolving_twice_gives_the_same_depths() {
    let source = "{ var a; fun f(b) { { print a + b; a = b; } } print f; }";
    let once = resolve(source).unwrap();
    let twice = Resolver::new().resolve_statements(&once).unwrap();
    let mut first = Vec::new();
    let mut second = Vec::new();
    for statement in &once {
        depths_of(statement, &mut first);
    }
    for statement in &twice {
        depths_of(statement, &mut second);
    }
    assert_eq!(first, second);
    assert_eq!(first.len(), 5);
}

#[test]
fn resolver_keeps_its_scopes() {
    let mut resolver = Resolver::new();
    assert!(resolver.peek_scope().is_none());
    assert_eq!(resolver.current_function, FunctionKind::TopLevel);
    let name = Identifier::new("a".to_string(), 3);
    assert!(resolver.declare(&name).is_ok());
    assert!(resolver.declare(&name).is_ok());
    resolver.begin_scope();
    assert!(resolver.peek_scope().is_some());
    assert!(resolver.declare(&name).is_ok());
    let reference = Variable::default(name.clone());
    let error = resolver.resolve_local(&reference).unwrap_err();
    assert_eq!(error.line, 3);
    resolver.define(&name);
    assert_eq!(resolver.resolve_local(&reference).unwrap().get_depth(), Some(0));
    assert!(resolver.declare(&name).is_err());
    resolver.begin_scope();
    assert_eq!(resolver.resolve_local(&reference).unwrap().depth, Some(1));
    let other = Variable::new(Identifier::new("b".to_string(), 1), Some(7));
    assert_eq!(resolver.resolve_local(&other).unwrap().depth, None);
    resolver.end_scope();
    resolver.end_scope();
    assert!(resolver.scopes.is_empty());
    resolver.end_scope();
    assert_eq!(resolver.resolve_local(&reference).unwrap().depth, None);
}

#[test]
fn scopes_remember_the_last_entry() {
    let mut scope = Scope::new();
    let name = "a".to_string();
    assert_eq!(scope.position(&name), None);
    scope.insert("a".to_string(), ResolverVariable::unresolved(1));
    scope.insert("b".to_string(), ResolverVariable::resolved(2));
    assert_eq!(scope.position(&name), Some(0));
    scope.insert("a".to_string(), ResolverVariable::resolved(1));
    assert_eq!(scope.position(&name), Some(2));
    assert!(scope.variables[2].initialized);
}

#[test]
fn resolver_variables_count_their_usages() {
    let mut variable = ResolverVariable::unresolved(4);
    assert!(!variable.initialized);
    assert_eq!(variable.line, 4);
    assert!(!variable.is_used());
    variable.increment_usages();
    assert!(variable.is_used());
    assert_eq!(variable.usages, 1);
    variable.usages = u32::MAX;
    variable.increment_usages();
    assert_eq!(variable.usages, u32::MAX);
    let defined = ResolverVariable::resolved(9);
    assert!(defined.initialized);
    assert_eq!(defined.usages, 0);
    assert_eq!(defined.line, 9);
}

#[test]
fn identifiers_and_variables() {
    let name = Identifier::new("answer".to_string(), 42);
    assert_eq!(name.get_name(), "answer");
    assert_eq!(name.get_line(), 42);
    let copy = name.clone();
    assert_eq!(copy.name, "answer");
    let mut variable = Variable::default(name.clone());
    assert_eq!(variable.get_depth(), None);
    assert_eq!(variable.get_identifier().get_name(), "answer");
    variable.set_depth(3);
    assert_eq!(variable.get_depth(), Some(3));
    let other = Variable::new(name, Some(1));
    assert_eq!(other.clone().get_depth(), Some(1));
    let token = rust_lox::Token::new(rust_lox::TokenType::IDENTIFIER, "x".to_string(), None, 5);
    let from_token = Identifier::token_to_id(token);
    assert_eq!(from_token.get_name(), "x");
    assert_eq!(from_token.get_line(), 5);
}

#[test]
fn resolve_errors_name_their_token() {
    let error = resolve("{ var a = a; }").unwrap_err();
    assert_eq!(error.location, "at a");
    assert_eq!(
        error.to_string(),
        "[line 1] Error at a: Can't read local variable in its own initializer."
    );
    let error = resolve("\nreturn;").unwrap_err();
    assert_eq!(error.to_string(), "[line 2] Error at return: Can't return from top-level code.");
    let error = resolve("{ var b; var b; }").unwrap_err();
    assert_eq!(
        error.to_string(),
        "[line 1] Error at b: Already a variable with this name is in this scope."
    );
    let error = rust_lox::Error::at(4, "x", "Wrong.");
    assert_eq!(error.line, 4);
    assert_eq!(error.message, "Wrong.");
    assert_eq!(error.to_string(), "[line 4] Error at x: Wrong.");
    assert_eq!(rust_lox::Error::new(4, "Wrong.".to_string()).location, "");
}

#[test]
fn scopes_keep_the_line_of_a_declaration() {
    let mut resolver = Resolver::new();
    resolver.begin_scope();
    let name = Identifier::new("a".to_string(), 12);
    assert!(resolver.declare(&name).is_ok());
    let scope = resolver.peek_scope().unwrap();
    let entry = &scope.variables[scope.position(&name.name).unwrap()];
    assert!(!entry.initialized);
    assert_eq!(entry.line, 12);
    assert_eq!(entry.usages, 0);
    resolver.define(&name);
    let scope = resolver.peek_scope().unwrap();
    let entry = &scope.variables[scope.position(&name.name).unwrap()];
    assert!(entry.initialized);
    assert_eq!(entry.line, 12);
    assert_eq!(entry.usages, 0);
}

#[test]
fn reads_in_the_innermost_scope_are_counted() {
    let mut resolver = Resolver::new();
    resolver.begin_scope();
    let a = Identifier::new("a".to_string(), 1);
    let b = Identifier::new("b".to_string(), 2);
    resolver.declare(&a).unwrap();
    resolver.define(&a);
    resolver.declare(&b).unwrap();
    resolver.define(&b);
    let read = rust_lox::ExpressionNode::new(
        3,
        Expression::BinaryExpression(
            Box::new(rust_lox::ExpressionNode::new(3, Expression::Variable(Variable::default(a.clone())))),
            rust_lox::BinaryOperator::PLUS,
            Box::new(rust_lox::ExpressionNode::new(3, Expression::Variable(Variable::default(a.clone())))),
        ),
    );
    assert!(resolver.resolve_expr(&read).is_ok());
    let usages = |resolver: &Resolver, name: &Identifier| {
        let scope = resolver.peek_scope().unwrap();
        scope.variables[scope.position(&name.name).unwrap()].usages
    };
    assert_eq!(usages(&resolver, &a), 2);
    assert_eq!(usages(&resolver, &b), 0);
    resolver.begin_scope();
    assert!(resolver.resolve_expr(&read).is_ok());
    resolver.end_scope();
    assert_eq!(usages(&resolver, &a), 2);
    let assign = rust_lox::ExpressionNode::new(
        4,
        Expression::Assignment(
            Variable::default(b.clone()),
            Box::new(rust_lox::ExpressionNode::new(4, Expression::Literal(rust_lox::Literal::Nil))),
        ),
    );
    assert!(resolver.resolve_expr(&assign).is_ok());
    assert_eq!(usages(&resolver, &b), 0);
    resolver.count(&b);
    assert_eq!(usages(&resolver, &b), 1);
    let mut scope = Scope::new();
    assert!(!scope.count(&"x".to_string()));
    scope.insert("x".to_string(), ResolverVariable::resolved(5));
    assert!(scope.count(&"x".to_string()));
    assert_eq!(scope.variables[0].usages, 1);
}

#[test]
fn a_scope_gains_the_names_declared_in_it() {
    let statements = parse(
        "var a = 1;\nfun f(p) { var inner = p; }\nclass C {}\n{ var hidden; }\nif (a) print f; else print C;",
    );
    let mut resolver = Resolver::new();
    resolver.begin_scope();
    let outer = Identifier::new("outer".to_string(), 1);
    resolver.declare(&outer).unwrap();
    resolver.define(&outer);
    resolver.begin_scope();
    assert!(resolver.resolve_statements(&statements).is_ok());
    assert_eq!(resolver.scopes.len(), 2);
    let scope = resolver.peek_scope().unwrap();
    let held = |name: &str| scope.position(&name.to_string()).map(|at| &scope.variables[at]);
    assert_eq!(held("a").unwrap().line, 1);
    assert_eq!(held("f").unwrap().line, 2);
    assert_eq!(held("C").unwrap().line, 3);
    assert!(held("a").unwrap().initialized && held("f").unwrap().initialized);
    assert!(held("p").is_none());
    assert!(held("inner").is_none());
    assert!(held("hidden").is_none());
    assert!(held("outer").is_none());
    assert_eq!(held("a").unwrap().usages, 1);
    let around = &resolver.scopes[0];
    assert_eq!(around.names.len(), 2);
    assert_eq!(around.variables[around.position(&"outer".to_string()).unwrap()].usages, 0);
}
