use rust_lox::{run, Finished, Interpreter, DEFAULT_DEPTH};

fn lines_of(source: &str) -> (Vec<String>, Finished) {
    let mut interpreter = Interpreter::new();
    let finished = run(&mut interpreter, source.to_string(), DEFAULT_DEPTH).finished;
    (interpreter.take_output(), finished)
}

fn printed(source: &str) -> Vec<String> {
    let (lines, finished) = lines_of(source);
    assert!(matches!(finished, Finished::Completed), "{:?}", finished);
    lines
}

#[test]
fn arithmetic_follows_precedence() {
    assert_eq!(printed("print 1 + 2 * 3;"), vec!["7"]);
}

#[test]
fn strings_are_concatenated() {
    assert_eq!(printed("var a = \"hi \"; var b = \"there\"; print a + b;"), vec!["hi there"]);
}

#[test]
fn for_loop_sums() {
    assert_eq!(
        printed("var n = 0; for (var i = 0; i < 5; i = i + 1) n = n + i; print n;"),
        vec!["10"]
    );
}

#[test]
fn closure_keeps_its_counter() {
    let source = "fun make() { var i = 0; fun inc() { i = i + 1; return i; } return inc; } \
                  var c = make(); print c(); print c(); print c();";
    assert_eq!(printed(source), vec!["1", "2", "3"]);
}

#[test]
fn recursion_computes_factorial() {
    assert_eq!(
        printed("fun fact(n) { if (n <= 1) return 1; return n * fact(n - 1); } print fact(6);"),
        vec!["720"]
    );
}

#[test]
fn blocks_shadow_and_restore() {
    assert_eq!(
        printed("var a = 1; { var a = 2; { var a = 3; print a; } print a; } print a;"),
        vec!["3", "2", "1"]
    );
}

#[test]
fn ternary_selects_an_arm() {
    assert_eq!(printed("print 1 == 1 ? \"yes\" : \"no\";"), vec!["yes"]);
}

#[test]
fn assignment_needs_a_declaration() {
    assert_eq!(printed("var a = 1; a = 2; print a;"), vec!["2"]);
    let (lines, finished) = lines_of("b = 3;");
    assert!(lines.is_empty());
    match finished {
        Finished::RuntimeFailed(error) => {
            assert_eq!(error.message, "Undefined variable.");
            assert_eq!(error.line, 1);
        }
        other => panic!("{:?}", other),
    }
}

#[test]
fn binding_is_captured_at_declaration() {
    assert_eq!(
        printed("var a=1; { fun f(){ return a; } var a=2; print f(); }"),
        vec!["1"]
    );
}

#[test]
fn empty_program_prints_nothing() {
    let (lines, finished) = lines_of("");
    assert!(lines.is_empty());
    assert_eq!(finished.exit_code(), 0);
}

#[test]
fn unterminated_string_is_a_scan_error() {
    let (lines, finished) = lines_of("print \"abc;");
    assert!(lines.is_empty());
    assert_eq!(finished.exit_code(), 65);
    match finished {
        Finished::ScanFailed(errors) => {
            assert_eq!(errors.len(), 1);
            assert_eq!(errors[0].message, "Unterminated string.");
        }
        other => panic!("{:?}", other),
    }
}

#[test]
fn return_at_top_level_is_a_resolve_error() {
    let (_, finished) = lines_of("return;");
    assert_eq!(finished.exit_code(), 65);
    match finished {
        Finished::ResolveFailed(error) => {
            assert_eq!(error.message, "Can't return from top-level code.")
        }
        other => panic!("{:?}", other),
    }
}

#[test]
fn division_by_zero_is_a_runtime_error() {
    let (_, finished) = lines_of("print 1/0;");
    assert_eq!(finished.exit_code(), 70);
    match finished {
        Finished::RuntimeFailed(error) => assert_eq!(error.message, "Cannot divide by zero."),
        other => panic!("{:?}", other),
    }
}
