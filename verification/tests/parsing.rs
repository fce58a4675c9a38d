use rust_lox::ast::grammar::Expectation;
use rust_lox::{
    BinaryOperator, CallOperator, Expression, ExpressionNode, Literal, LogicalOperator,
    OperatorTokenType, ParseError, Parser, Scanner, Statement, TernaryOperator, TokenType,
    UnaryOperator,
};

fn parser_for(source: &str) -> Parser {
    let mut scanner = Scanner::new(source.to_string());
    scanner.scan_tokens();
    assert!(!scanner.had_error);
    Parser::new(scanner.tokens)
}

fn parse(source: &str) -> (Vec<Statement>, Vec<ParseError>) {
    let mut parser = parser_for(source);
    let statements = parser.parse();
    (statements, parser.errors)
}

fn program(source: &str) -> Vec<Statement> {
    let (statements, errors) = parse(source);
    assert!(errors.is_empty(), "{:?}", errors);
    statements
}

fn expression(source: &str) -> ExpressionNode {
    let mut parser = parser_for(source);
    let node = parser.expression().expect(source);
    assert!(parser.is_at_end(), "{}", source);
    node
}

/// The expression in prefix form, fully parenthesised.
fn shape(node: &ExpressionNode) -> String {
    match &node.expr {
        Expression::TernaryExpression(c, _, a, b) => {
            format!("(? {} {} {})", shape(c), shape(a), shape(b))
        }
        Expression::BinaryExpression(a, op, b) => {
            format!("({} {} {})", op.to_string(), shape(a), shape(b))
        }
        Expression::Grouping(a) => format!("(group {})", shape(a)),
        Expression::CallExpression(callee, _, arguments) => {
            let mut text = format!("(call {}", shape(callee));
            for argument in arguments {
                text.push(' ');
                text.push_str(&shape(argument));
            }
            text.push(')');
            text
        }
        Expression::GetExpression(name, object) => format!("(get {} {})", shape(object), name.name),
        Expression::SetExpression(object, name, value) => {
            format!("(set {} {} {})", shape(object), name.name, shape(value))
        }
        Expression::FunctionExpression(function) => format!("(fun {})", function.parameters.len()),
        Expression::Literal(literal) => literal.to_string(),
        Expression::Unary(op, a) => format!("({} {})", op.to_string(), shape(a)),
        Expression::Variable(variable) => variable.identifier.name.clone(),
        Expression::Assignment(variable, a) => {
            format!("(= {} {})", variable.identifier.name, shape(a))
        }
        Expression::Or(a, op, b) => format!("({} {} {})", op.to_string(), shape(a), shape(b)),
        Expression::And(a, op, b) => format!("({} {} {})", op.to_string(), shape(a), shape(b)),
    }
}

fn shape_of(source: &str) -> String {
    shape(&expression(source))
}

#[test]
fn factors_bind_tighter_than_terms() {
    assert_eq!(shape_of("1 + 2 * 3"), "(+ 1 (* 2 3))");
    assert_eq!(shape_of("1 * 2 + 3"), "(+ (* 1 2) 3)");
    assert_eq!(shape_of("1 - 2 / 3 - 4"), "(- (- 1 (/ 2 3)) 4)");
}

#[test]
fn binary_operators_group_to_the_left() {
    assert_eq!(shape_of("1 - 2 - 3"), "(- (- 1 2) 3)");
    assert_eq!(shape_of("8 / 4 / 2"), "(/ (/ 8 4) 2)");
    assert_eq!(shape_of("1 < 2 < 3"), "(< (< 1 2) 3)");
    assert_eq!(shape_of("1 == 2 != 3"), "(!= (== 1 2) 3)");
}

#[test]
fn comparison_binds_tighter_than_equality() {
    assert_eq!(shape_of("1 < 2 == 3 >= 4"), "(== (< 1 2) (>= 3 4))");
    assert_eq!(shape_of("1 + 2 <= 3 * 4"), "(<= (+ 1 2) (* 3 4))");
    assert_eq!(shape_of("a > b"), "(> a b)");
}

#[test]
fn unary_operators_nest() {
    assert_eq!(shape_of("-1"), "(- 1)");
    assert_eq!(shape_of("!!true"), "(! (! true))");
    assert_eq!(shape_of("-a * b"), "(* (- a) b)");
    assert_eq!(shape_of("- -1"), "(- (- 1))");
    assert_eq!(shape_of("!f(1)"), "(! (call f 1))");
}

#[test]
fn logical_operators() {
    assert_eq!(shape_of("a or b and c"), "(or a (and b c))");
    assert_eq!(shape_of("a and b or c"), "(or (and a b) c)");
    assert_eq!(shape_of("a or b or c"), "(or (or a b) c)");
    assert_eq!(shape_of("a and b and c"), "(and (and a b) c)");
    assert_eq!(shape_of("a == 1 and b"), "(and (== a 1) b)");
}

#[test]
fn ternary_groups_to_the_right() {
    assert_eq!(shape_of("a ? b : c"), "(? a b c)");
    assert_eq!(shape_of("a ? b : c ? d : e"), "(? a b (? c d e))");
    assert_eq!(shape_of("a ? b ? c : d : e"), "(? a (? b c d) e)");
    assert_eq!(shape_of("1 == 1 ? \"yes\" : \"no\""), "(? (== 1 1) yes no)");
}

#[test]
fn assignment_groups_to_the_right() {
    assert_eq!(shape_of("a = b = 3"), "(= a (= b 3))");
    assert_eq!(shape_of("a = b or c"), "(= a (or b c))");
    assert_eq!(shape_of("a.b = 1"), "(set a b 1)");
    assert_eq!(shape_of("a.b.c = d.e"), "(set (get a b) c (get d e))");
}

#[test]
fn comma_is_the_lowest_level() {
    assert_eq!(shape_of("a = 1, b = 2"), "(, (= a 1) (= b 2))");
    assert_eq!(shape_of("1, 2, 3"), "(, 1 (, 2 3))");
    assert_eq!(shape_of("f(1, 2)"), "(call f 1 2)");
    assert_eq!(shape_of("f((1, 2))"), "(call f (group (, 1 2)))");
}

#[test]
fn calls_and_property_reads_chain() {
    assert_eq!(shape_of("f()"), "(call f)");
    assert_eq!(shape_of("f(1)(2)"), "(call (call f 1) 2)");
    assert_eq!(shape_of("a.b"), "(get a b)");
    assert_eq!(shape_of("a.b(1).c"), "(get (call (get a b) 1) c)");
    assert_eq!(shape_of("f(a = 1)"), "(call f (= a 1))");
}

#[test]
fn primaries() {
    assert_eq!(shape_of("true"), "true");
    assert_eq!(shape_of("false"), "false");
    assert_eq!(shape_of("nil"), "NIL");
    assert_eq!(shape_of("12.5"), "12.5");
    assert_eq!(shape_of("\"text\""), "text");
    assert_eq!(shape_of("name"), "name");
    assert_eq!(shape_of("(1 + 2) * 3"), "(* (group (+ 1 2)) 3)");
    assert_eq!(shape_of("fun (a, b) { return a; }"), "(fun 2)");
    assert_eq!(shape_of("fun () {}()"), "(call (fun 0))");
}

#[test]
fn nodes_record_the_line_of_their_principal_token() {
    let node = expression("1\n+\n2");
    assert_eq!(node.line(), 2);
    match node.expression() {
        Expression::BinaryExpression(left, op, right) => {
            assert_eq!(left.line, 1);
            assert_eq!(right.line, 3);
            assert!(matches!(op, BinaryOperator::PLUS));
        }
        other => panic!("{:?}", other),
    }
    assert_eq!(expression("\n\n-x").line, 3);
    assert_eq!(expression("f(\n)").line, 2);
    assert_eq!(expression("a\n?\nb\n:\nc").line, 2);
    assert_eq!(expression("a\n=\n1").line, 2);
    assert_eq!(expression("(\n1)").line, 1);
}

#[test]
fn one_statement_for_each_declaration() {
    assert_eq!(program("").len(), 0);
    assert_eq!(program("print 1;").len(), 1);
    assert_eq!(program("var a; var b = 1; { a = b; } fun f() {} class C {} f(); if (a) b; while (a) b;").len(), 8);
    assert_eq!(program("var a = 1; { var b = 2; var c = 3; } print a;").len(), 3);
}

#[test]
fn statements_have_their_kind() {
    let statements = program(
        "print 1; 2; var a; var b = 3; { 4; } if (a) 5; else 6; while (a) 7; fun f(x) { return x; } class C { m() {} } ",
    );
    assert!(matches!(statements[0], Statement::PrintStatement(_)));
    assert!(matches!(statements[1], Statement::ExpressionStatement(_)));
    assert!(matches!(statements[2], Statement::VariableDeclaration(_, None)));
    assert!(matches!(statements[3], Statement::VariableDeclaration(_, Some(_))));
    match &statements[4] {
        Statement::BlockStatement(inner) => assert_eq!(inner.len(), 1),
        other => panic!("{:?}", other),
    }
    assert!(matches!(statements[5], Statement::IfStatement(_, _, Some(_))));
    assert!(matches!(statements[6], Statement::WhileStatement(_, _)));
    match &statements[7] {
        Statement::FunctionDeclaration(function) => {
            assert_eq!(function.identifier.get_name(), "f");
            assert_eq!(function.identifier.get_line(), 1);
            assert_eq!(function.parameters.len(), 1);
            assert_eq!(function.parameters[0].name, "x");
            assert_eq!(function.body.len(), 1);
            assert!(matches!(function.body[0], Statement::ReturnStatement(1, Some(_))));
        }
        other => panic!("{:?}", other),
    }
    match &statements[8] {
        Statement::ClassDeclaration(name, methods) => {
            assert_eq!(name.name, "C");
            assert_eq!(methods.len(), 1);
            assert_eq!(methods[0].identifier.name, "m");
        }
        other => panic!("{:?}", other),
    }
}

#[test]
fn else_belongs_to_the_nearest_if() {
    let statements = program("if (a) if (b) 1; else 2;");
    match &statements[0] {
        Statement::IfStatement(_, then_branch, None) => {
            assert!(matches!(**then_branch, Statement::IfStatement(_, _, Some(_))));
        }
        other => panic!("{:?}", other),
    }
}

#[test]
fn for_is_rewritten_as_while() {
    let statements = program("for (var i = 0; i < 5; i = i + 1) print i;");
    assert_eq!(statements.len(), 1);
    match &statements[0] {
        Statement::BlockStatement(outer) => {
            assert_eq!(outer.len(), 2);
            assert!(matches!(outer[0], Statement::VariableDeclaration(_, Some(_))));
            match &outer[1] {
                Statement::WhileStatement(condition, body) => {
                    assert_eq!(shape(condition), "(< i 5)");
                    match &**body {
                        Statement::BlockStatement(inner) => {
                            assert_eq!(inner.len(), 2);
                            assert!(matches!(inner[0], Statement::PrintStatement(_)));
                            match &inner[1] {
                                Statement::ExpressionStatement(step) => {
                                    assert_eq!(shape(step), "(= i (+ i 1))")
                                }
                                other => panic!("{:?}", other),
                            }
                        }
                        other => panic!("{:?}", other),
                    }
                }
                other => panic!("{:?}", other),
            }
        }
        other => panic!("{:?}", other),
    }
}

#[test]
fn for_clauses_may_be_left_out() {
    let statements = program("for (;;) print 1;");
    match &statements[0] {
        Statement::WhileStatement(condition, body) => {
            assert!(matches!(condition.expr, Expression::Literal(Literal::Boolean(true))));
            assert!(matches!(**body, Statement::PrintStatement(_)));
        }
        other => panic!("{:?}", other),
    }
    let statements = program("for (i = 0; ; ) print 1;");
    match &statements[0] {
        Statement::BlockStatement(outer) => {
            assert!(matches!(outer[0], Statement::ExpressionStatement(_)));
            assert!(matches!(outer[1], Statement::WhileStatement(_, _)));
        }
        other => panic!("{:?}", other),
    }
    let statements = program("for (; a; a = a - 1) {}");
    match &statements[0] {
        Statement::WhileStatement(_, body) => match &**body {
            Statement::BlockStatement(inner) => assert_eq!(inner.len(), 2),
            other => panic!("{:?}", other),
        },
        other => panic!("{:?}", other),
    }
}

#[test]
fn a_fun_without_a_name_is_an_expression() {
    let statements = program("fun (a) { return a; };");
    match &statements[0] {
        Statement::ExpressionStatement(node) => {
            assert!(matches!(node.expr, Expression::FunctionExpression(_)))
        }
        other => panic!("{:?}", other),
    }
}

#[test]
fn return_with_and_without_value() {
    let statements = program("fun f() { return; }\nfun g() {\n return 1; }");
    match &statements[0] {
        Statement::FunctionDeclaration(function) => {
            assert!(matches!(function.body[0], Statement::ReturnStatement(1, None)))
        }
        other => panic!("{:?}", other),
    }
    match &statements[1] {
        Statement::FunctionDeclaration(function) => {
            assert!(matches!(function.body[0], Statement::ReturnStatement(3, Some(_))))
        }
        other => panic!("{:?}", other),
    }
}

fn only_error(source: &str) -> ParseError {
    let (statements, mut errors) = parse(source);
    assert!(statements.is_empty(), "{:?}", statements);
    assert_eq!(errors.len(), 1, "{:?}", errors);
    errors.remove(0)
}

#[test]
fn missing_expression_is_reported() {
    match only_error("print ;") {
        ParseError::MissingExpr(token) => assert_eq!(token.typ, TokenType::SEMICOLON),
        other => panic!("{:?}", other),
    }
    assert!(matches!(only_error("1 +"), ParseError::MissingExpr(_)));
    assert!(matches!(only_error(")"), ParseError::MissingExpr(_)));
}

#[test]
fn missing_variable_name_is_reported() {
    match only_error("var 1 = 2;") {
        ParseError::MissingVariableName(token) => assert_eq!(token.lexeme, "1"),
        other => panic!("{:?}", other),
    }
}

#[test]
fn invalid_assignment_target_is_reported() {
    match only_error("1 = 2;") {
        ParseError::InvalidAssignmentTarget(token) => assert_eq!(token.typ, TokenType::EQUAL),
        other => panic!("{:?}", other),
    }
    assert!(matches!(only_error("a + b = c;"), ParseError::InvalidAssignmentTarget(_)));
    assert!(matches!(only_error("(a) = 1;"), ParseError::InvalidAssignmentTarget(_)));
    assert!(matches!(only_error("f() = 1;"), ParseError::InvalidAssignmentTarget(_)));
}

#[test]
fn missing_tokens_are_reported() {
    let cases: Vec<(&str, Expectation)> = vec![
        ("print 1", Expectation::SemicolonAfterValue),
        ("1", Expectation::SemicolonAfterExpression),
        ("var a = 1", Expectation::SemicolonAfterVariable),
        ("var a", Expectation::SemicolonAfterVariable),
        ("fun f() { return 1 }", Expectation::SemicolonAfterReturn),
        ("for (;1) 2;", Expectation::SemicolonAfterLoopCondition),
        ("fun f {}", Expectation::ParenAfterFunctionName),
        ("fun f(a {}", Expectation::ParenAfterParameters),
        ("fun f() 1;", Expectation::BraceBeforeFunctionBody),
        ("fun f(1) {}", Expectation::ParameterName),
        ("fun f(a,) {}", Expectation::ParameterName),
        ("class 1 {}", Expectation::ClassName),
        ("class C m() {}", Expectation::BraceBeforeClassBody),
        ("class C { 1 }", Expectation::MethodName),
        ("if a) 1;", Expectation::ParenAfterIf),
        ("if (a 1;", Expectation::ParenAfterIfCondition),
        ("while a) 1;", Expectation::ParenAfterWhile),
        ("while (a 1;", Expectation::ParenAfterWhileCondition),
        ("for i = 0;;) 1;", Expectation::ParenAfterFor),
        ("for (;;1 2;", Expectation::ParenAfterForClauses),
        ("{ 1;", Expectation::BraceAfterBlock),
        ("a ? b;", Expectation::ColonAfterThenBranch),
        ("(1;", Expectation::ParenAfterExpression),
        ("f(1;", Expectation::ParenAfterArguments),
        ("a.1;", Expectation::PropertyName),
        ("fun 1;", Expectation::ParenAfterFun),
    ];
    for (source, wanted) in cases {
        let (_, errors) = parse(source);
        assert!(!errors.is_empty(), "{}", source);
        match &errors[0] {
            ParseError::MissingToken(_, found) => assert_eq!(*found, wanted, "{}", source),
            other => panic!("{}: {:?}", source, other),
        }
    }
}

#[test]
fn parsing_goes_on_after_an_error() {
    let (statements, errors) = parse("print 1; print ; print 2; var = 3; print 3;");
    assert_eq!(statements.len(), 3);
    assert_eq!(errors.len(), 2);
    assert!(matches!(errors[0], ParseError::MissingExpr(_)));
    assert!(matches!(errors[1], ParseError::MissingVariableName(_)));
    let (statements, errors) = parse("1 + * 2 3 4 print 5;");
    assert_eq!(statements.len(), 1);
    assert_eq!(errors.len(), 1);
    assert!(matches!(statements[0], Statement::PrintStatement(_)));
}

#[test]
fn errors_inside_a_block_leave_the_block_standing() {
    let (statements, errors) = parse("{ print 1; print ; print 2; } print 3;");
    assert_eq!(errors.len(), 1);
    assert_eq!(statements.len(), 2);
    match &statements[0] {
        Statement::BlockStatement(inner) => assert_eq!(inner.len(), 2),
        other => panic!("{:?}", other),
    }
}

fn call_with(count: usize) -> String {
    let arguments: Vec<String> = (0..count).map(|i| i.to_string()).collect();
    format!("f({});", arguments.join(", "))
}

#[test]
fn a_call_takes_at_most_255_arguments() {
    let (statements, errors) = parse(&call_with(255));
    assert!(errors.is_empty());
    match &statements[0] {
        Statement::ExpressionStatement(node) => match &node.expr {
            Expression::CallExpression(_, _, arguments) => assert_eq!(arguments.len(), 255),
            other => panic!("{:?}", other),
        },
        other => panic!("{:?}", other),
    }
    let (statements, errors) = parse(&call_with(256));
    assert!(statements.is_empty());
    assert_eq!(errors.len(), 1);
    assert!(matches!(errors[0], ParseError::CallArgumentSize(_)));
}

#[test]
fn too_many_parameters_are_reported_and_parsing_goes_on() {
    let names: Vec<String> = (0..256).map(|i| format!("p{}", i)).collect();
    let source = format!("fun f({}) {{ return 1; }} print 2;", names.join(", "));
    let (statements, errors) = parse(&source);
    assert_eq!(errors.len(), 1);
    assert!(matches!(errors[0], ParseError::CallArgumentSize(_)));
    assert_eq!(statements.len(), 2);
    match &statements[0] {
        Statement::FunctionDeclaration(function) => assert_eq!(function.parameters.len(), 256),
        other => panic!("{:?}", other),
    }
    let names: Vec<String> = (0..255).map(|i| format!("p{}", i)).collect();
    let source = format!("fun f({}) {{}}", names.join(", "));
    let (_, errors) = parse(&source);
    assert!(errors.is_empty());
}

#[test]
fn parse_errors_are_written() {
    let error = only_error("print\n;");
    assert_eq!(error.message(), "Expect expression");
    assert_eq!(error.line(), 2);
    assert_eq!(error.lexeme(), ";");
    assert_eq!(error.print(), "[line 2] Error at ;: Expect expression.");
    assert_eq!(only_error("print 1").print(), "[line 1] Error at EOF: Expect ';' after value.");
    assert_eq!(only_error("var 1;").message(), "Expect variable name");
    assert_eq!(only_error("1 = 2;").message(), "Invalid assignment target");
    let (_, errors) = parse(&call_with(300));
    assert_eq!(errors[0].message(), "Can't have more than 255 arguments");
    assert_eq!(ParseError::OutOfTokens.message(), "Unexpected end of input");
    assert_eq!(ParseError::OutOfTokens.line(), 0);
    assert_eq!(Expectation::BraceAfterBlock.as_str(), "Expect '}' after block");
    let copy = error.clone();
    assert_eq!(copy.print(), error.print());
}

#[test]
fn parser_steps_through_the_tokens() {
    let mut parser = parser_for("a + 1;");
    assert_eq!(parser.peek().lexeme, "a");
    assert_eq!(parser.previous().lexeme, "a");
    assert!(parser.check_token_type(TokenType::IDENTIFIER));
    assert_eq!(parser.peek_next_type(), TokenType::PLUS);
    parser.advance();
    assert_eq!(parser.previous().lexeme, "a");
    assert_eq!(parser.match_operator_type(vec![BinaryOperator::MINUS, BinaryOperator::PLUS]).map(|op| op.to_string()), Some("+".to_string()));
    assert!(parser.match_operator_type(vec![UnaryOperator::BANG, UnaryOperator::MINUS]).is_none());
    assert!(parser.consume(TokenType::SEMICOLON, Expectation::SemicolonAfterValue).is_err());
    assert_eq!(parser.consume(TokenType::NUMBER, Expectation::SemicolonAfterValue).unwrap().lexeme, "1");
    assert!(!parser.is_at_end());
    parser.advance();
    assert!(parser.is_at_end());
    parser.advance();
    assert!(parser.is_at_end());
    assert_eq!(parser.peek_next_type(), TokenType::EOF);
}

#[test]
fn synchronize_stops_behind_a_semicolon_or_at_a_statement() {
    let mut parser = parser_for("a b ; c d");
    parser.synchronize();
    assert_eq!(parser.peek().lexeme, "c");
    let mut parser = parser_for("a b while c");
    parser.synchronize();
    assert_eq!(parser.peek().typ, TokenType::WHILE);
    let mut parser = parser_for("a b c");
    parser.synchronize();
    assert!(parser.is_at_end());
    let mut parser = parser_for("print print");
    parser.synchronize();
    assert_eq!(parser.current_token, 1);
}

#[test]
fn levels_can_be_parsed_on_their_own() {
    let mut parser = parser_for("1 * 2 + 3");
    assert_eq!(shape(&parser.factor().unwrap()), "(* 1 2)");
    assert_eq!(parser.peek().typ, TokenType::PLUS);
    let mut parser = parser_for("1 + 2 < 3");
    assert_eq!(shape(&parser.term().unwrap()), "(+ 1 2)");
    let mut parser = parser_for("1 < 2 == 3");
    assert_eq!(shape(&parser.comparison().unwrap()), "(< 1 2)");
    let mut parser = parser_for("1 == 2 and 3");
    assert_eq!(shape(&parser.equality().unwrap()), "(== 1 2)");
    let mut parser = parser_for("a and b or c");
    assert_eq!(shape(&parser.and().unwrap()), "(and a b)");
    let mut parser = parser_for("a or b = c");
    assert_eq!(shape(&parser.or().unwrap()), "(or a b)");
    let mut parser = parser_for("a, b");
    assert_eq!(shape(&parser.comma().unwrap()), "(, a b)");
    let mut parser = parser_for("-a.b");
    assert_eq!(shape(&parser.unary().unwrap()), "(- (get a b))");
    let mut parser = parser_for("a(1)");
    assert_eq!(shape(&parser.call().unwrap()), "(call a 1)");
    let mut parser = parser_for("a ? b : c");
    assert_eq!(shape(&parser.ternary().unwrap()), "(? a b c)");
    let mut parser = parser_for("a = b");
    assert_eq!(shape(&parser.assignment().unwrap()), "(= a b)");
    let mut parser = parser_for("2 + 3)");
    assert_eq!(shape(&parser.binary(2).unwrap()), "(+ 2 3)");
    let mut parser = parser_for("a or b");
    assert_eq!(shape(&parser.logical(0).unwrap()), "(or a b)");
}

#[test]
fn operators_name_their_token() {
    assert_eq!(LogicalOperator::AND.token_type(), TokenType::AND);
    assert_eq!(LogicalOperator::OR.token_type(), TokenType::OR);
    assert_eq!(UnaryOperator::MINUS.token_type(), TokenType::MINUS);
    assert_eq!(UnaryOperator::BANG.token_type(), TokenType::BANG);
    assert_eq!(BinaryOperator::MINUS.token_type(), TokenType::MINUS);
    assert_eq!(BinaryOperator::PLUS.token_type(), TokenType::PLUS);
    assert_eq!(BinaryOperator::BANGEQUAL.token_type(), TokenType::BANGEQUAL);
    assert_eq!(BinaryOperator::EQUALEQUAL.token_type(), TokenType::EQUALEQUAL);
    assert_eq!(BinaryOperator::GREATER.token_type(), TokenType::GREATER);
    assert_eq!(BinaryOperator::GREATEREQUAL.token_type(), TokenType::GREATEREQUAL);
    assert_eq!(BinaryOperator::LESS.token_type(), TokenType::LESS);
    assert_eq!(BinaryOperator::LESSEQUAL.token_type(), TokenType::LESSEQUAL);
    assert_eq!(BinaryOperator::SLASH.token_type(), TokenType::SLASH);
    assert_eq!(BinaryOperator::STAR.token_type(), TokenType::STAR);
    assert_eq!(BinaryOperator::COMMA.token_type(), TokenType::COMMA);
    assert_eq!(TernaryOperator::QUESTIONMARK.token_type(), TokenType::QUESTIONMARK);
    assert_eq!(CallOperator::LEFTPAREN.token_type(), TokenType::LEFTPAREN);
    assert_eq!(CallOperator::RIGHTPAREN.token_type(), TokenType::RIGHTPAREN);
    assert_eq!(CallOperator::COMMA.token_type(), TokenType::COMMA);
}

#[test]
fn operators_are_written() {
    assert_eq!(LogicalOperator::AND.to_string(), "and");
    assert_eq!(LogicalOperator::OR.to_string(), "or");
    assert_eq!(LogicalOperator::OR.as_str(), "or");
    assert_eq!(UnaryOperator::MINUS.to_string(), "-");
    assert_eq!(UnaryOperator::BANG.to_string(), "!");
    assert_eq!(BinaryOperator::GREATEREQUAL.to_string(), ">=");
    assert_eq!(BinaryOperator::COMMA.to_string(), ",");
    assert_eq!(BinaryOperator::SLASH.to_string(), "/");
    assert_eq!(TernaryOperator::QUESTIONMARK.to_string(), "?");
}
