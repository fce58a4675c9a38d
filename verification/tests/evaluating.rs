use rust_lox::common::text::decimal_string;
use rust_lox::runtime::instance::Bindings;
use rust_lox::runtime::interpreter::{
    apply_binary, apply_equality, apply_numeric, apply_sum, apply_unary, arity_error,
};
use rust_lox::{
    run, BinaryOperator, Callable, Clock, Environment, Error, Expression, ExpressionNode, Finished,
    Function, FunctionDeclaration, FunctionExpression, FunctionInfo, Identifier, InstanceHandle,
    Interpreter, Literal, LoxCallable, LoxClass, LoxFunction, LoxInstance, Number, Statement,
    UnaryOperator, Variable, DEFAULT_DEPTH,
};
use std::rc::Rc;

fn lines_of(source: &str) -> (Vec<String>, Finished) {
    let mut interpreter = Interpreter::new();
    let finished = run(&mut interpreter, source.to_string(), DEFAULT_DEPTH).finished;
    (interpreter.take_output(), finished)
}

fn printed(source: &str) -> Vec<String> {
    let (lines, finished) = lines_of(source);
    assert!(matches!(finished, Finished::Completed), "{}: {:?}", source, finished);
    lines
}

fn failure(source: &str) -> Error {
    match lines_of(source).1 {
        Finished::RuntimeFailed(error) => error,
        other => panic!("{}: {:?}", source, other),
    }
}

fn number(value: f64) -> Literal {
    Literal::Number(Number::from_bits(value.to_bits()))
}

fn text(value: &str) -> Literal {
    Literal::String(value.to_string())
}

fn as_f64(literal: &Literal) -> f64 {
    match literal {
        Literal::Number(n) => f64::from_bits(n.to_bits()),
        other => panic!("{:?}", other),
    }
}

#[test]
fn and_does_not_evaluate_its_right_operand_after_a_falsy_left() {
    let source = "var seen = 0; fun touch() { seen = seen + 1; return true; } \
                  print false and touch(); print seen; print true and touch(); print seen;";
    assert_eq!(printed(source), vec!["false", "0", "true", "1"]);
}

#[test]
fn or_does_not_evaluate_its_right_operand_after_a_truthy_left() {
    let source = "var seen = 0; fun touch() { seen = seen + 1; return false; } \
                  print true or touch(); print seen; print false or touch(); print seen;";
    assert_eq!(printed(source), vec!["true", "0", "false", "1"]);
}

#[test]
fn logical_operators_give_an_operand() {
    assert_eq!(printed("print 1 or 2; print 0 or 2; print 1 and 2; print 0 and 2;"), vec!["1", "2", "2", "0"]);
    assert_eq!(printed("print nil or \"x\"; print \"\" and 1; print \"a\" and \"b\";"), vec!["x", "", "b"]);
}

#[test]
fn the_same_closure_sees_the_same_scope_from_every_call_site() {
    let source = "fun make() { var n = 0; fun next() { n = n + 1; return n; } return next; } \
                  var c = make(); var d = make(); \
                  fun elsewhere(f) { var n = 100; return f(); } \
                  print c(); { var n = 50; print c(); } print elsewhere(c); print d();";
    assert_eq!(printed(source), vec!["1", "2", "3", "1"]);
}

#[test]
fn truthiness() {
    let yes = ["true", "1", "0.5", "\"a\"", "\" \""];
    let no = ["false", "nil", "0", "-1", "\"\"", "clock"];
    for value in yes {
        assert_eq!(printed(&format!("if ({}) print 1; else print 2;", value)), vec!["1"], "{}", value);
    }
    for value in no {
        assert_eq!(printed(&format!("if ({}) print 1; else print 2;", value)), vec!["2"], "{}", value);
    }
    assert!(text("x").is_truthy());
    assert!(!text("").is_truthy());
    assert!(number(0.1).is_truthy());
    assert!(!number(0.0).is_truthy());
    assert!(!number(-0.0).is_truthy());
    assert!(!number(-3.0).is_truthy());
    assert!(!number(f64::NAN).is_truthy());
    assert!(number(f64::INFINITY).is_truthy());
    assert!(!number(f64::NEG_INFINITY).is_truthy());
    assert!(number(5e-324).is_truthy());
    assert!(Literal::Boolean(true).is_truthy());
    assert!(!Literal::Boolean(false).is_truthy());
    assert!(!Literal::Nil.is_truthy());
    assert!(!Literal::Callable(Callable::Builtin(Clock)).is_truthy());
}

#[test]
fn arithmetic() {
    assert_eq!(printed("print 7 - 2; print 3 * 4; print 9 / 2; print -3; print 1 - 2 - 3;"), vec!["5", "12", "4.5", "-3", "-4"]);
    assert_eq!(printed("print 0.1 + 0.2; print 1 / 3; print (1 + 2) * 3;"), vec!["0.30000000000000004", "0.3333333333333333", "9"]);
}

#[test]
fn plus_joins_strings_and_numbers() {
    assert_eq!(printed("print \"a\" + \"b\"; print 1 + \"b\"; print \"a\" + 2; print \"x\" + 1.5;"), vec!["ab", "1b", "a2", "x1.5"]);
    assert_eq!(failure("print true + 1;").message, "Operands must be numbers or strings.");
    assert_eq!(failure("print nil + \"a\";").message, "Operands must be numbers or strings.");
}

#[test]
fn comparisons() {
    assert_eq!(printed("print 1 < 2; print 2 < 1; print 1 <= 1; print 1 > 2; print 2 >= 2; print 3 > 2;"), vec!["true", "false", "true", "false", "true", "true"]);
    assert_eq!(failure("print 1 < \"a\";").message, "Operands must be numbers.");
    assert_eq!(failure("print \"a\" - 1;").message, "Operands must be numbers.");
    assert_eq!(failure("print nil * 2;").message, "Operands must be numbers.");
    assert_eq!(failure("print true / 2;").message, "Operands must be numbers.");
}

#[test]
fn equality_is_strict_about_kinds() {
    assert_eq!(printed("print 1 == 1; print 1 != 1; print \"a\" == \"a\"; print \"a\" != \"b\"; print true == false; print true != false;"), vec!["true", "false", "true", "true", "false", "true"]);
    assert_eq!(failure("print 1 == \"1\";").message, "Operands must be strings, numbers or booleans.");
    assert_eq!(failure("print nil == nil;").message, "Operands must be strings, numbers or booleans.");
    assert_eq!(failure("print true != 1;").message, "Operands must be strings, numbers or booleans.");
}

#[test]
fn unary_operators_are_strict() {
    assert_eq!(printed("print !true; print !false; print --1;"), vec!["false", "true", "1"]);
    assert_eq!(failure("print -\"a\";").message, "Operand must be a number.");
    assert_eq!(failure("print !1;").message, "Operand must be a boolean.");
    assert_eq!(failure("print !nil;").message, "Operand must be a boolean.");
}

#[test]
fn division_by_zero_fails() {
    let error = failure("var a = 1;\nprint a / 0;");
    assert_eq!(error.message, "Cannot divide by zero.");
    assert_eq!(error.line, 2);
    assert_eq!(failure("print 1 / -0;").message, "Cannot divide by zero.");
    assert_eq!(printed("print 0 / 1;"), vec!["0"]);
}

#[test]
fn comma_gives_its_right_operand() {
    assert_eq!(printed("print (1, 2); print (nil, \"a\"); print (1, true);"), vec!["2", "a", "true"]);
    assert_eq!(failure("print (1, nil);").message, "Operands must be strings, numbers or booleans.");
    assert_eq!(printed("var a = 0; var b = (a = 5, 7); print a; print b;"), vec!["5", "7"]);
}

#[test]
fn ternary_needs_a_boolean_and_evaluates_one_arm() {
    assert_eq!(printed("print true ? 1 : 2; print false ? 1 : 2;"), vec!["1", "2"]);
    assert_eq!(failure("print 1 ? 2 : 3;").message, "Expression must evaluate to boolean");
    let source = "var seen = 0; fun touch(v) { seen = seen + 1; return v; } \
                  print true ? touch(1) : touch(2); print seen;";
    assert_eq!(printed(source), vec!["1", "1"]);
}

#[test]
fn variables() {
    assert_eq!(printed("var a; print a; var b = 1; print b; b = b + 1; print b;"), vec!["NIL", "1", "2"]);
    assert_eq!(failure("print a;").message, "Variable must be defined before referenced");
    assert_eq!(failure("{ a = 1; }").message, "Undefined variable.");
    assert_eq!(printed("var a = 1; var a = 2; print a;"), vec!["2"]);
    assert_eq!(printed("var a = 1; { a = 2; } print a;"), vec!["2"]);
    assert_eq!(printed("var a = 1; print a = 2;"), vec!["1"]);
}

#[test]
fn control_flow() {
    assert_eq!(printed("var i = 0; while (i < 3) { print i; i = i + 1; }"), vec!["0", "1", "2"]);
    assert_eq!(printed("if (1 > 2) print 1;"), Vec::<String>::new());
    assert_eq!(printed("for (var i = 3; i > 0; i = i - 1) print i;"), vec!["3", "2", "1"]);
    assert_eq!(printed("fun f() { while (true) { return 5; } } print f();"), vec!["5"]);
    assert_eq!(printed("fun f() { for (var i = 0; ; i = i + 1) { if (i == 4) return i; } } print f();"), vec!["4"]);
}

#[test]
fn functions() {
    assert_eq!(printed("fun f() {} print f();"), vec!["NIL"]);
    assert_eq!(printed("fun f() { return; } print f();"), vec!["NIL"]);
    assert_eq!(printed("fun add(a, b) { return a + b; } print add(1, 2); print add;"), vec!["3", "<fn add>"]);
    assert_eq!(printed("var f = fun (a) { return a * 2; }; print f(4); print f;"), vec!["8", "<fn fn anonymous>"]);
    assert_eq!(printed("fun fib(n) { if (n < 2) return n; return fib(n - 1) + fib(n - 2); } print fib(15);"), vec!["610"]);
    assert_eq!(printed("fun even(n) { if (n == 0) return true; return odd(n - 1); } fun odd(n) { if (n == 0) return false; return even(n - 1); } print even(10);"), vec!["true"]);
    assert_eq!(printed("fun f(a) { a = a + 1; return a; } var a = 1; print f(a); print a;"), vec!["2", "1"]);
    assert_eq!(printed("print clock;"), vec!["<fn clock>"]);
}

#[test]
fn arguments_are_evaluated_from_left_to_right() {
    let source = "var log = \"\"; fun note(v) { log = log + v; return v; } \
                  fun three(a, b, c) { return a + b + c; } \
                  print three(note(\"a\"), note(\"b\"), note(\"c\")); print log;";
    assert_eq!(printed(source), vec!["abc", "abc"]);
}

#[test]
fn arity_is_checked() {
    let error = failure("fun f(a, b) {}\nf(1);");
    assert_eq!(error.message, "Expected 2 arguments but got 1.");
    assert_eq!(error.line, 2);
    assert_eq!(failure("fun f() {} f(1, 2, 3);").message, "Expected 0 arguments but got 3.");
    assert_eq!(failure("clock(1);").message, "Expected 0 arguments but got 1.");
    assert_eq!(failure("class C {} C(1);").message, "Expected 0 arguments but got 1.");
    assert_eq!(arity_error(2, 10, 7).message, "Expected 2 arguments but got 10.");
    assert_eq!(arity_error(2, 10, 7).line, 7);
}

#[test]
fn only_functions_and_classes_can_be_called() {
    assert_eq!(failure("1();").message, "Can only call functions and classes.");
    assert_eq!(failure("\"text\"();").message, "Can only call functions and classes.");
    assert_eq!(failure("nil();").message, "Can only call functions and classes.");
    assert_eq!(failure("var a = true; a(1, 2);").message, "Can only call functions and classes.");
    assert_eq!(failure("class C {} var c = C(); c();").message, "Can only call functions and classes.");
}

#[test]
fn the_callee_is_checked_before_the_arguments_are_evaluated() {
    let (lines, finished) = lines_of("fun note() { print 1; return 1; } nil(note());");
    assert!(lines.is_empty());
    assert!(matches!(finished, Finished::RuntimeFailed(_)));
}

#[test]
fn errors_leave_the_printed_lines() {
    let (lines, finished) = lines_of("print 1; print 2 / 0; print 3;");
    assert_eq!(lines, vec!["1"]);
    assert_eq!(finished.exit_code(), 70);
    let (lines, _) = lines_of("{ print 1; { print nil + 1; } }");
    assert_eq!(lines, vec!["1"]);
}

#[test]
fn the_current_scope_is_restored_after_an_error() {
    let mut interpreter = Interpreter::new();
    let first = run(&mut interpreter, "var a = 1; { var a = 2; { print a / 0; } }".to_string(), DEFAULT_DEPTH);
    assert!(matches!(first.finished, Finished::RuntimeFailed(_)));
    assert_eq!(interpreter.environment, 0);
    let second = run(&mut interpreter, "print a;".to_string(), DEFAULT_DEPTH);
    assert!(matches!(second.finished, Finished::Completed));
    assert_eq!(interpreter.take_output(), vec!["1"]);
}

#[test]
fn state_lives_on_between_runs() {
    let mut interpreter = Interpreter::new();
    run(&mut interpreter, "var a = 1; fun inc() { a = a + 1; return a; }".to_string(), DEFAULT_DEPTH);
    let second = run(&mut interpreter, "print inc(); print inc();".to_string(), DEFAULT_DEPTH);
    assert!(matches!(second.finished, Finished::Completed));
    assert_eq!(interpreter.take_output(), vec!["2", "3"]);
    assert!(interpreter.take_output().is_empty());
}

#[test]
fn nesting_of_calls_is_limited() {
    let mut interpreter = Interpreter::new();
    let result = run(&mut interpreter, "fun f(n) { return f(n + 1); } f(0);".to_string(), 50);
    match result.finished {
        Finished::RuntimeFailed(error) => assert_eq!(error.message, "Stack overflow."),
        other => panic!("{:?}", other),
    }
    assert_eq!(interpreter.environment, 0);
    let mut interpreter = Interpreter::new();
    let source = "fun down(n) { if (n == 0) return 0; return down(n - 1); } print down(9);";
    assert!(matches!(run(&mut interpreter, source.to_string(), 10).finished, Finished::Completed));
    let mut interpreter = Interpreter::new();
    assert!(matches!(run(&mut interpreter, source.to_string(), 9).finished, Finished::RuntimeFailed(_)));
    let mut interpreter = Interpreter::new();
    assert!(matches!(run(&mut interpreter, "clock(); class C {} C();".to_string(), 0).finished, Finished::Completed));
}

#[test]
fn clock_gives_the_time_in_seconds() {
    let lines = printed("var t = clock(); print t > 1600000000; print t < 100000000000; print clock() - t < 5;");
    assert_eq!(lines, vec!["true", "true", "true"]);
    let seconds = Clock::read();
    assert!(seconds > 1_600_000_000);
    assert_eq!(as_f64(&Clock::value(1700000000)), 1700000000.0);
    assert_eq!(as_f64(&Clock::value(-5)), -5.0);
    assert_eq!(Clock.arity(), 0);
    assert_eq!(Clock.name(), "clock");
}

#[test]
fn classes_and_instances() {
    assert_eq!(printed("class Point {} print Point; var p = Point(); print p;"), vec!["class Point", "Point instance"]);
    assert_eq!(printed("class P {} var p = P(); p.x = 1; p.y = p.x + 1; print p.x; print p.y; p.x = 5; print p.x;"), vec!["1", "2", "5"]);
    assert_eq!(printed("class P {} var p = P(); var q = P(); p.x = 1; q.x = 2; print p.x; print q.x;"), vec!["1", "2"]);
    assert_eq!(printed("class P {} var p = P(); var q = p; q.x = 3; print p.x;"), vec!["3"]);
    assert_eq!(printed("class P { m() { return 1; } } var p = P(); print p.x = 4;"), vec!["4"]);
    assert_eq!(failure("class P {} var p = P(); print p.x;").message, "Undefined property.");
    assert_eq!(failure("var p = 1; print p.x;").message, "Only instances have properties.");
    assert_eq!(failure("var p = \"s\"; p.x = 1;").message, "Only instances have fields.");
}

#[test]
fn values_are_written() {
    assert_eq!(Literal::Nil.to_string(), "NIL");
    assert_eq!(Literal::Boolean(true).to_string(), "true");
    assert_eq!(Literal::Boolean(false).to_string(), "false");
    assert_eq!(text("hi").to_string(), "hi");
    assert_eq!(number(2.5).to_string(), "2.5");
    assert_eq!(Literal::Callable(Callable::Builtin(Clock)).to_string(), "<fn clock>");
    let class = LoxClass::new("Point".to_string());
    assert_eq!(class.to_string(), "Point");
    assert_eq!(class.name(), "Point");
    assert_eq!(class.arity(), 0);
    assert_eq!(Literal::Class(class.clone()).to_string(), "class Point");
    let handle = InstanceHandle { class: class.clone(), index: 0 };
    assert_eq!(Literal::Instance(handle.clone()).to_string(), "Point instance");
    let declaration = Rc::new(FunctionDeclaration::new(
        Identifier::new("f".to_string(), 1),
        vec![Identifier::new("a".to_string(), 1)],
        Vec::new(),
    ));
    let function = LoxFunction::new(Function::Declaration(declaration), 0, 4);
    assert_eq!(function.arity(), 1);
    assert_eq!(function.name(), "f");
    let value = Literal::Callable(Callable::Function(function));
    assert_eq!(value.to_string(), "<fn f>");
    assert_eq!(value.clone().to_string(), "<fn f>");
    let anonymous = Function::Expression(Rc::new(FunctionExpression::new(Vec::new(), Vec::new())));
    assert_eq!(anonymous.identifier(), "fn anonymous");
    assert_eq!(anonymous.parameters().len(), 0);
    assert_eq!(anonymous.body().len(), 0);
    assert_eq!(Callable::Function(LoxFunction::new(anonymous.clone(), 0, 0)).arity(), 0);
}

#[test]
fn values_are_compared() {
    assert!(Literal::Nil.equals(&Literal::Nil));
    assert!(!Literal::Nil.equals(&Literal::Boolean(false)));
    assert!(text("a").equals(&text("a")));
    assert!(!text("a").equals(&text("b")));
    assert!(number(1.0).equals(&number(1.0)));
    assert!(number(0.0).equals(&number(-0.0)));
    assert!(!number(f64::NAN).equals(&number(f64::NAN)));
    assert!(!number(1.0).equals(&text("1")));
    assert!(Literal::Boolean(true).equals(&Literal::Boolean(true)));
    let clock = Literal::Callable(Callable::Builtin(Clock));
    assert!(clock.equals(&clock.clone()));
    let syntax = Function::Expression(Rc::new(FunctionExpression::new(Vec::new(), Vec::new())));
    let one = Literal::Callable(Callable::Function(LoxFunction::new(syntax.clone(), 0, 1)));
    let two = Literal::Callable(Callable::Function(LoxFunction::new(syntax, 0, 2)));
    assert!(one.equals(&one.clone()));
    assert!(!one.equals(&two));
    assert!(!one.equals(&clock));
    let class = LoxClass::new("C".to_string());
    let first = Literal::Instance(InstanceHandle { class: class.clone(), index: 0 });
    let second = Literal::Instance(InstanceHandle { class: class.clone(), index: 1 });
    assert!(first.equals(&first.clone()));
    assert!(!first.equals(&second));
    assert!(Literal::Class(class.clone()).equals(&Literal::Class(class)));
    assert!(clock.clone().into_callable().is_some());
    assert!(text("a").into_callable().is_none());
    assert!(Literal::Nil.into_callable().is_none());
}

#[test]
fn function_values_are_told_apart() {
    let mut interpreter = Interpreter::new();
    run(&mut interpreter, "fun make() { fun f() {} return f; } var a = make(); var b = make(); var c = a;".to_string(), DEFAULT_DEPTH);
    let globals = interpreter.globals();
    let a = globals.get(&"a".to_string()).unwrap();
    let b = globals.get(&"b".to_string()).unwrap();
    let c = globals.get(&"c".to_string()).unwrap();
    assert!(a.equals(&c));
    assert!(!a.equals(&b));
    assert!(globals.get(&"clock".to_string()).is_some());
    assert!(globals.get(&"d".to_string()).is_none());
}

#[test]
fn operators_apply_to_values() {
    assert_eq!(as_f64(&apply_binary(BinaryOperator::PLUS, number(1.0), number(2.0), 1).unwrap()), 3.0);
    assert_eq!(as_f64(&apply_binary(BinaryOperator::MINUS, number(1.0), number(2.0), 1).unwrap()), -1.0);
    assert_eq!(as_f64(&apply_binary(BinaryOperator::STAR, number(3.0), number(2.0), 1).unwrap()), 6.0);
    assert_eq!(as_f64(&apply_binary(BinaryOperator::SLASH, number(3.0), number(2.0), 1).unwrap()), 1.5);
    assert!(matches!(apply_binary(BinaryOperator::GREATER, number(3.0), number(2.0), 1), Ok(Literal::Boolean(true))));
    assert!(matches!(apply_binary(BinaryOperator::GREATEREQUAL, number(2.0), number(2.0), 1), Ok(Literal::Boolean(true))));
    assert!(matches!(apply_binary(BinaryOperator::LESS, number(3.0), number(2.0), 1), Ok(Literal::Boolean(false))));
    assert!(matches!(apply_binary(BinaryOperator::LESSEQUAL, number(3.0), number(2.0), 1), Ok(Literal::Boolean(false))));
    assert!(matches!(apply_binary(BinaryOperator::EQUALEQUAL, text("a"), text("a"), 1), Ok(Literal::Boolean(true))));
    assert!(matches!(apply_binary(BinaryOperator::BANGEQUAL, text("a"), text("a"), 1), Ok(Literal::Boolean(false))));
    assert!(matches!(apply_binary(BinaryOperator::BANGEQUAL, number(f64::NAN), number(f64::NAN), 1), Ok(Literal::Boolean(true))));
    assert!(matches!(apply_binary(BinaryOperator::COMMA, Literal::Nil, Literal::Boolean(true), 1), Ok(Literal::Boolean(true))));
    let error = apply_binary(BinaryOperator::SLASH, number(1.0), number(0.0), 9).unwrap_err();
    assert_eq!(error.message, "Cannot divide by zero.");
    assert_eq!(error.line, 9);
    assert_eq!(apply_sum(text("a"), number(1.0), 1).unwrap().to_string(), "a1");
    assert_eq!(apply_sum(number(1.5), text("a"), 1).unwrap().to_string(), "1.5a");
    assert!(apply_sum(Literal::Nil, Literal::Nil, 1).is_err());
    assert!(matches!(apply_equality(&number(1.0), &number(1.0), 1), Ok(true)));
    assert!(matches!(apply_equality(&Literal::Boolean(true), &Literal::Boolean(false), 1), Ok(false)));
    assert!(apply_equality(&Literal::Nil, &Literal::Nil, 1).is_err());
    assert_eq!(as_f64(&apply_numeric(BinaryOperator::MINUS, Number::from_bits(5f64.to_bits()), Number::from_bits(3f64.to_bits()), 1).unwrap()), 2.0);
    assert_eq!(as_f64(&apply_unary(UnaryOperator::MINUS, number(2.0), 1).unwrap()), -2.0);
    assert!(matches!(apply_unary(UnaryOperator::BANG, Literal::Boolean(true), 1), Ok(Literal::Boolean(false))));
    assert_eq!(apply_unary(UnaryOperator::MINUS, Literal::Nil, 3).unwrap_err().line, 3);
    assert_eq!(apply_unary(UnaryOperator::BANG, number(1.0), 3).unwrap_err().message, "Operand must be a boolean.");
}

#[test]
fn expressions_and_statements_can_be_evaluated_on_their_own() {
    let mut interpreter = Interpreter::new();
    let two = ExpressionNode::new(1, Expression::Literal(number(2.0)));
    let three = ExpressionNode::new(1, Expression::Literal(number(3.0)));
    let product = ExpressionNode::new(
        1,
        Expression::BinaryExpression(Box::new(two), BinaryOperator::STAR, Box::new(three)),
    );
    assert_eq!(as_f64(&interpreter.evaluate(&product, 10).unwrap()), 6.0);
    let name = Identifier::new("x".to_string(), 1);
    let declare = Statement::VariableDeclaration(name.clone(), Some(Box::new(product)));
    assert!(matches!(interpreter.evaluate_statement(&declare, true, 10), Ok(None)));
    let read = ExpressionNode::new(2, Expression::Variable(Variable::default(name.clone())));
    assert_eq!(as_f64(&interpreter.evaluate(&read, 10).unwrap()), 6.0);
    let lost = ExpressionNode::new(2, Expression::Variable(Variable::new(name.clone(), Some(1))));
    assert!(interpreter.evaluate(&lost, 10).is_err());
    let print = Statement::PrintStatement(Box::new(ExpressionNode::new(
        3,
        Expression::Variable(Variable::new(name.clone(), Some(0))),
    )));
    let give = Statement::ReturnStatement(3, Some(Box::new(ExpressionNode::new(3, Expression::Literal(text("done"))))));
    let after = Statement::PrintStatement(Box::new(ExpressionNode::new(4, Expression::Literal(text("never")))));
    let block = vec![print, give, after];
    let result = interpreter.execute_block(&block, 0, 10).unwrap();
    assert_eq!(result.unwrap().to_string(), "done");
    assert_eq!(interpreter.take_output(), vec!["6"]);
    let bare = Statement::ReturnStatement(5, None);
    assert!(matches!(interpreter.evaluate_statement(&bare, false, 10), Ok(Some(Literal::Nil))));
    assert!(matches!(interpreter.interpret(&Vec::new(), 10), Ok(None)));
    assert_eq!(interpreter.lookup(&Variable::default(name.clone())).unwrap().to_string(), "6");
    assert_eq!(interpreter.assign(&Variable::default(name.clone()), text("new")).unwrap().to_string(), "6");
    assert_eq!(interpreter.lookup(&Variable::default(name)).unwrap().to_string(), "new");
    assert!(interpreter.assign(&Variable::default(Identifier::new("y".to_string(), 1)), Literal::Nil).is_none());
    assert_eq!(interpreter.ancestor(0, 0), Some(0));
    assert_eq!(interpreter.ancestor(0, 1), None);
    assert_eq!(interpreter.ancestor(5, 0), None);
}

#[test]
fn scopes_form_a_chain_to_the_globals() {
    let mut interpreter = Interpreter::new();
    run(&mut interpreter, "var f; { var a = 1; { var b = 2; f = fun () { return a + b; }; } } print f();".to_string(), DEFAULT_DEPTH);
    assert_eq!(interpreter.take_output(), vec!["3"]);
    assert_eq!(interpreter.environment, 0);
    for (place, scope) in interpreter.environments.iter().enumerate() {
        match scope.enclosing {
            Some(outer) => assert!(outer < place),
            None => assert_eq!(place, 0),
        }
    }
    assert_eq!(interpreter.ancestor(2, 2), Some(0));
    assert_eq!(interpreter.ancestor(2, 3), None);
}

#[test]
fn environments_bind_names() {
    let mut environment = Environment::new();
    assert!(environment.enclosing.is_none());
    let name = "a".to_string();
    assert!(environment.get(&name).is_none());
    assert!(environment.assign(&name, number(1.0)).is_none());
    environment.define("a".to_string(), number(1.0));
    environment.define("b".to_string(), text("x"));
    assert_eq!(environment.get(&name).unwrap().to_string(), "1");
    assert_eq!(environment.assign(&name, number(2.0)).unwrap().to_string(), "1");
    assert_eq!(environment.get(&name).unwrap().to_string(), "2");
    environment.define("a".to_string(), number(3.0));
    assert_eq!(environment.get(&name).unwrap().to_string(), "3");
    assert_eq!(environment.get(&"b".to_string()).unwrap().to_string(), "x");
    let inner = Environment::new_with_environment(4);
    assert_eq!(inner.enclosing, Some(4));
    assert!(inner.get(&name).is_none());
    let mut bindings = Bindings::new();
    assert_eq!(bindings.position(&name), None);
    bindings.define("a".to_string(), Literal::Nil);
    assert!(bindings.assign(&name, Literal::Boolean(true)));
    assert!(!bindings.assign(&"zz".to_string(), Literal::Nil));
    assert_eq!(bindings.get(&name).unwrap().to_string(), "true");
    assert_eq!(bindings.position(&name), Some(0));
}

#[test]
fn instances_hold_fields() {
    let mut instance = LoxInstance::new(LoxClass::new("Point".to_string()));
    assert_eq!(instance.to_string(), "Point");
    let x = Identifier::new("x".to_string(), 1);
    assert!(instance.get(&x).is_none());
    instance.set("x".to_string(), number(1.0));
    assert_eq!(instance.get(&x).unwrap().to_string(), "1");
    instance.set("x".to_string(), number(2.0));
    assert_eq!(instance.get(&x).unwrap().to_string(), "2");
    let class = LoxClass::with_methods("Q".to_string(), Rc::new(Vec::new()), 7);
    assert_eq!(class.id, 7);
    assert_eq!(class.clone().name, "Q");
}

#[test]
fn errors_are_written() {
    assert_eq!(Error::error(3, "Unexpected character.".to_string()), "[line 3] Error : Unexpected character.");
    assert_eq!(Error::report(12, "at end".to_string(), "Expect expression.".to_string()), "[line 12] Error at end: Expect expression.");
    let error = Error::new(7, "Cannot divide by zero.".to_string());
    assert_eq!(error.line, 7);
    assert_eq!(error.to_string(), "[line 7] Error : Cannot divide by zero.");
    assert_eq!(error.clone().message, "Cannot divide by zero.");
    assert_eq!(Error::with_message(0, "x").to_string(), "[line 0] Error : x");
    assert_eq!(decimal_string(65), "65");
}

#[test]
fn runs_report_how_they_ended() {
    let mut interpreter = Interpreter::new();
    let done = run(&mut interpreter, "print 1;".to_string(), DEFAULT_DEPTH);
    assert_eq!(done.finished.exit_code(), 0);
    assert_eq!(done.tokens.len(), 4);
    assert_eq!(done.statements.len(), 1);
    let scan = run(&mut interpreter, "print @;".to_string(), DEFAULT_DEPTH);
    assert_eq!(scan.finished.exit_code(), 65);
    assert!(matches!(scan.finished, Finished::ScanFailed(_)));
    let parse = run(&mut interpreter, "print ;\nvar ;".to_string(), DEFAULT_DEPTH);
    assert_eq!(parse.finished.exit_code(), 65);
    match parse.finished {
        Finished::ParseFailed(errors) => assert_eq!(errors.len(), 2),
        other => panic!("{:?}", other),
    }
    let resolve = run(&mut interpreter, "{ var a = a; }".to_string(), DEFAULT_DEPTH);
    assert_eq!(resolve.finished.exit_code(), 65);
    assert!(matches!(resolve.finished, Finished::ResolveFailed(_)));
    let runtime = run(&mut interpreter, "print nil + 1;".to_string(), DEFAULT_DEPTH);
    assert_eq!(runtime.finished.exit_code(), 70);
    assert_eq!(interpreter.take_output(), vec!["1"]);
    assert_eq!(DEFAULT_DEPTH, 500);
}

#[test]
fn numbers_in_programs() {
    assert_eq!(printed("print 3.14; print 10; print 0.5; print 100000000000000000000; print 1.0; print 2.50;"), vec!["3.14", "10", "0.5", "100000000000000000000", "1", "2.5"]);
    assert_eq!(printed("print 7 / 2 * 2; print 2 * 3.5; print 1 - 0.9;"), vec!["7", "7", "0.09999999999999998"]);
}

#[test]
fn scopes_without_closures_are_given_up() {
    let mut interpreter = Interpreter::new();
    let source = "var n = 0; for (var i = 0; i < 100; i = i + 1) { var t = i; { n = n + t; } } \
                  fun twice(x) { return x * 2; } print twice(n);";
    assert!(matches!(run(&mut interpreter, source.to_string(), DEFAULT_DEPTH).finished, Finished::Completed));
    assert_eq!(interpreter.take_output(), vec!["9900"]);
    assert_eq!(interpreter.environments.len(), 1);
    let keep = "var f; { var a = 1; f = fun () { return a; }; } print f();";
    assert!(matches!(run(&mut interpreter, keep.to_string(), DEFAULT_DEPTH).finished, Finished::Completed));
    assert_eq!(interpreter.take_output(), vec!["1"]);
    assert_eq!(interpreter.environments.len(), 2);
}

#[test]
fn long_loops_and_deep_recursion_run() {
    let source = "var n = 0; var i = 0; while (i < 20000) { n = n + i * 2; i = i + 1; } print n;";
    assert_eq!(printed(source), vec!["399980000"]);
    let source = "fun fib(n) { if (n < 2) return n; return fib(n - 1) + fib(n - 2); } print fib(18);";
    assert_eq!(printed(source), vec!["2584"]);
    let source = "fun count(n) { if (n == 0) return 0; return 1 + count(n - 1); } print count(400);";
    assert_eq!(printed(source), vec!["400"]);
}

#[test]
fn a_number_that_is_not_a_number_is_falsy() {
    let mut interpreter = Interpreter::new();
    let nan = ExpressionNode::new(1, Expression::Literal(number(f64::NAN)));
    let yes = Statement::PrintStatement(Box::new(ExpressionNode::new(1, Expression::Literal(text("yes")))));
    let no = Statement::PrintStatement(Box::new(ExpressionNode::new(1, Expression::Literal(text("no")))));
    let choice = Statement::IfStatement(Box::new(nan), Box::new(yes), Some(Box::new(no)));
    assert!(matches!(interpreter.evaluate_statement(&choice, false, 10), Ok(None)));
    assert_eq!(interpreter.take_output(), vec!["no"]);
}

#[test]
fn callables_can_be_called_directly() {
    let mut interpreter = Interpreter::new();
    let source = "fun add(a, b) { return a + b; } class Point {}";
    assert!(matches!(run(&mut interpreter, source.to_string(), DEFAULT_DEPTH).finished, Finished::Completed));
    let site = ExpressionNode::new(7, Expression::Literal(Literal::Nil));
    let add = interpreter.globals().get(&"add".to_string()).unwrap();
    let sum = interpreter.invoke(&site, add.clone(), vec![number(2.0), number(3.0)], 10).unwrap();
    assert_eq!(as_f64(&sum), 5.0);
    let error = interpreter.invoke(&site, add.clone(), vec![number(2.0)], 10).unwrap_err();
    assert_eq!(error.message, "Expected 2 arguments but got 1.");
    assert_eq!(error.line, 7);
    let error = interpreter.invoke(&site, add, vec![number(2.0), number(3.0)], 0).unwrap_err();
    assert_eq!(error.message, "Stack overflow.");
    let class = interpreter.globals().get(&"Point".to_string()).unwrap();
    let instance = interpreter.invoke(&site, class, Vec::new(), 10).unwrap();
    assert_eq!(instance.to_string(), "Point instance");
    let clock = interpreter.globals().get(&"clock".to_string()).unwrap();
    assert!(as_f64(&interpreter.invoke(&site, clock, Vec::new(), 0).unwrap()) > 1.6e9);
    let error = interpreter.invoke(&site, text("x"), Vec::new(), 10).unwrap_err();
    assert_eq!(error.message, "Can only call functions and classes.");
    assert_eq!(interpreter.environment, 0);
}

#[test]
fn preparation_stops_at_the_first_stage_that_fails() {
    let ready = rust_lox::prepare("var a = 1; print a;".to_string());
    assert!(ready.failed.is_none());
    assert_eq!(ready.statements.len(), 2);
    assert_eq!(ready.tokens.len(), 9);
    let scan = rust_lox::prepare("var a = #;".to_string());
    assert!(matches!(scan.failed, Some(Finished::ScanFailed(_))));
    assert!(scan.statements.is_empty());
    let parse = rust_lox::prepare("var = 1;".to_string());
    assert!(matches!(parse.failed, Some(Finished::ParseFailed(_))));
    let resolve = rust_lox::prepare("return 1;".to_string());
    assert!(matches!(resolve.failed, Some(Finished::ResolveFailed(_))));
    let later = rust_lox::prepare("print 1 / 0;".to_string());
    assert!(later.failed.is_none());
}
