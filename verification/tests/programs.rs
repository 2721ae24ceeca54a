use rlox::errors::{InterpretError, ParseError};
use rlox::interpreter::Interpreter;
use rlox::parser::parse_source;
use rlox::stmt::Stmt;

/// Parses a source that has no syntax errors.
fn parsed(source: &str) -> Vec<Stmt> {
    let (statements, errors) = parse_source(source).unwrap();
    assert_eq!(errors, Vec::<ParseError>::new());
    statements
}

/// What a program prints, and whether it ended with an error.
fn printed(source: &str) -> (Vec<String>, bool) {
    let statements = parsed(source);
    let mut interpreter = Interpreter::new();
    let failed = interpreter.interpret(&statements).is_err();
    (interpreter.output, failed)
}

fn lines(expected: &[&str]) -> Vec<String> {
    expected.iter().map(|s| s.to_string()).collect()
}

#[test]
fn prints_a_number_with_two_decimals() {
    assert_eq!(printed("print 1;"), (lines(&["1.00"]), false));
    assert_eq!(printed("print 3.14159;"), (lines(&["3.14"]), false));
    assert_eq!(printed("print 0.125;"), (lines(&["0.12"]), false));
    assert_eq!(printed("print 0.375;"), (lines(&["0.38"]), false));
    assert_eq!(printed("print 12345.678;"), (lines(&["12345.68"]), false));
}

#[test]
fn concatenates_strings() {
    assert_eq!(printed("print \"a\" + \"b\";"), (lines(&["ab"]), false));
}

#[test]
fn adding_a_number_and_a_string_fails() {
    let statements = parsed("1 + \"a\";");
    let mut interpreter = Interpreter::new();
    let result = interpreter.interpret(&statements);
    assert!(matches!(result, Err(InterpretError::EvaluationAddOverloaderError { .. })));
}

#[test]
fn inner_declaration_shadows_and_outer_is_restored() {
    assert_eq!(
        printed("var x = 1; { var x = 2; print x; } print x;"),
        (lines(&["2.00", "1.00"]), false)
    );
}

#[test]
fn closures_share_the_captured_variable() {
    let source = "
        fun counter() {
            var count = 0;
            fun increment() {
                count = count + 1;
                return count;
            }
            return increment;
        }
        var next = counter();
        print next();
        print next();
        var other = counter();
        print other();
        print next();
    ";
    assert_eq!(printed(source), (lines(&["1.00", "2.00", "1.00", "3.00"]), false));
}

#[test]
fn undefined_variable_is_an_error() {
    let statements = parsed("print missing;");
    let mut interpreter = Interpreter::new();
    assert_eq!(
        interpreter.interpret(&statements),
        Err(InterpretError::UndefinedVariable { lexeme: "missing".to_string() })
    );
    let statements = parsed("missing = 1;");
    let mut interpreter = Interpreter::new();
    assert_eq!(
        interpreter.interpret(&statements),
        Err(InterpretError::UndefinedVariable { lexeme: "missing".to_string() })
    );
    assert_eq!(interpreter.environment.scopes.len(), 1);
    assert_eq!(interpreter.environment.scopes[0].bindings.len(), 1);
}

#[test]
fn declared_without_value_reads_as_undefined() {
    let statements = parsed("var x; print x;");
    let mut interpreter = Interpreter::new();
    assert_eq!(
        interpreter.interpret(&statements),
        Err(InterpretError::UndefinedVariable { lexeme: "x".to_string() })
    );
    assert_eq!(printed("var x; x = 4; print x;"), (lines(&["4.00"]), false));
    let statements = parsed("var x = 1; { var x; print x; }");
    let mut interpreter = Interpreter::new();
    assert_eq!(
        interpreter.interpret(&statements),
        Err(InterpretError::UndefinedVariable { lexeme: "x".to_string() })
    );
    assert_eq!(printed("var x = 1; { var x; x = 2; print x; } print x;"), (lines(&["2.00", "1.00"]), false));
}

#[test]
fn logical_operators_short_circuit() {
    assert_eq!(printed("print false and (1 / 0);"), (lines(&["false"]), false));
    assert_eq!(printed("print true or (1 / 0);"), (lines(&["true"]), false));
    assert_eq!(printed("print true and 3;"), (lines(&["3.00"]), false));
    assert_eq!(printed("print nil or \"x\";"), (lines(&["x"]), false));
}

#[test]
fn division_by_zero_is_an_error() {
    let statements = parsed("print 1 / 0;");
    let mut interpreter = Interpreter::new();
    assert_eq!(
        interpreter.interpret(&statements),
        Err(InterpretError::RuntimeError { err: "Division by zero.".to_string() })
    );
}

#[test]
fn wrong_number_of_arguments_is_an_error() {
    let statements = parsed("fun f(a, b) { return a; } f(1);");
    let mut interpreter = Interpreter::new();
    assert_eq!(
        interpreter.interpret(&statements),
        Err(InterpretError::RuntimeError {
            err: "Expected '2' arguments but got '1'".to_string()
        })
    );
}

#[test]
fn calling_a_number_is_an_error() {
    let statements = parsed("var f = 3; f();");
    let mut interpreter = Interpreter::new();
    assert_eq!(
        interpreter.interpret(&statements),
        Err(InterpretError::CastError {
            expect: "Callable".to_string(),
            actual: "3.00".to_string()
        })
    );
}

#[test]
fn valid_statements_after_a_syntax_error_are_parsed() {
    let (statements, errors) = parse_source("var = 1; print 2; print 3;").unwrap();
    assert_eq!(errors.len(), 1);
    assert!(matches!(&errors[0], ParseError::ParseFail { message, .. } if message == "Expect variable name."));
    assert_eq!(statements.len(), 2);
    let mut interpreter = Interpreter::new();
    assert_eq!(interpreter.interpret(&statements), Ok(()));
    assert_eq!(interpreter.output, lines(&["2.00", "3.00"]));
}

#[test]
fn arithmetic_and_precedence() {
    assert_eq!(printed("print 1 + 2 * 3;"), (lines(&["7.00"]), false));
    assert_eq!(printed("print (1 + 2) * 3;"), (lines(&["9.00"]), false));
    assert_eq!(printed("print 10 - 4 - 3;"), (lines(&["3.00"]), false));
    assert_eq!(printed("print 7 / 2;"), (lines(&["3.50"]), false));
    assert_eq!(printed("print -3 * -2;"), (lines(&["6.00"]), false));
    assert_eq!(printed("print 1 / 3;"), (lines(&["0.33"]), false));
    assert_eq!(printed("print -1 / 3;"), (lines(&["-0.33"]), false));
    assert_eq!(printed("print 0.1 + 0.2 == 0.3;"), (lines(&["true"]), false));
}

#[test]
fn comparison_and_equality() {
    assert_eq!(printed("print 1 < 2;"), (lines(&["true"]), false));
    assert_eq!(printed("print 2 <= 2;"), (lines(&["true"]), false));
    assert_eq!(printed("print 1 > 2;"), (lines(&["false"]), false));
    assert_eq!(printed("print 1 >= 2;"), (lines(&["false"]), false));
    assert_eq!(printed("print 1 == 1;"), (lines(&["true"]), false));
    assert_eq!(printed("print 1 != 1;"), (lines(&["false"]), false));
    assert_eq!(printed("print 1 == \"1\";"), (lines(&["false"]), false));
    assert_eq!(printed("print nil == nil;"), (lines(&["true"]), false));
    assert_eq!(printed("print \"a\" == \"a\";"), (lines(&["true"]), false));
    assert_eq!(printed("fun f() {} print f == f;"), (lines(&["false"]), false));
}

#[test]
fn unary_operators() {
    assert_eq!(printed("print !true;"), (lines(&["false"]), false));
    assert_eq!(printed("print !nil;"), (lines(&["true"]), false));
    assert_eq!(printed("print -2;"), (lines(&["-2.00"]), false));
    let statements = parsed("print -\"a\";");
    let mut interpreter = Interpreter::new();
    assert!(matches!(
        interpreter.interpret(&statements),
        Err(InterpretError::EvaluateUnaryFail { .. })
    ));
    let statements = parsed("print !1;");
    let mut interpreter = Interpreter::new();
    assert!(matches!(
        interpreter.interpret(&statements),
        Err(InterpretError::EvaluateUnaryFail { .. })
    ));
}

#[test]
fn binary_operator_on_other_kinds_fails() {
    let statements = parsed("print \"a\" < 1;");
    let mut interpreter = Interpreter::new();
    assert!(matches!(
        interpreter.interpret(&statements),
        Err(InterpretError::EvaluateBinaryFail { .. })
    ));
}

#[test]
fn control_flow() {
    assert_eq!(printed("if (true) print 1; else print 2;"), (lines(&["1.00"]), false));
    assert_eq!(printed("if (false) print 1; else print 2;"), (lines(&["2.00"]), false));
    assert_eq!(printed("if (false) print 1;"), (lines(&[]), false));
    assert_eq!(
        printed("var i = 0; while (i < 3) { print i; i = i + 1; }"),
        (lines(&["0.00", "1.00", "2.00"]), false)
    );
    assert_eq!(
        printed("for (var i = 0; i < 3; i = i + 1) print i;"),
        (lines(&["0.00", "1.00", "2.00"]), false)
    );
}

#[test]
fn condition_must_be_a_boolean() {
    let statements = parsed("if (1) print 1;");
    let mut interpreter = Interpreter::new();
    assert_eq!(
        interpreter.interpret(&statements),
        Err(InterpretError::CastError {
            expect: "Boolean".to_string(),
            actual: "1.00".to_string()
        })
    );
    let statements = parsed("while (nil) print 1;");
    let mut interpreter = Interpreter::new();
    assert!(matches!(interpreter.interpret(&statements), Err(InterpretError::CastError { .. })));
}

#[test]
fn return_stops_the_function_at_any_depth() {
    let source = "
        fun f() {
            var i = 0;
            while (true) {
                if (i == 2) { return i; }
                i = i + 1;
            }
            print \"unreachable\";
        }
        print f();
        fun g() { return; print 1; }
        print g();
        fun h() { }
        print h();
    ";
    assert_eq!(printed(source), (lines(&["2.00", "nil", "nil"]), false));
}

#[test]
fn recursion() {
    let source = "
        fun fib(n) {
            if (n < 2) return n;
            return fib(n - 1) + fib(n - 2);
        }
        print fib(15);
    ";
    assert_eq!(printed(source), (lines(&["610.00"]), false));
}

#[test]
fn functions_use_the_scope_they_were_declared_in() {
    let source = "
        var a = \"global\";
        {
            fun show() { print a; }
            show();
            var a = \"block\";
            show();
        }
    ";
    assert_eq!(printed(source), (lines(&["global", "block"]), false));
    let source = "
        var x = \"outer\";
        fun show() { print x; }
        fun caller() { var x = \"inner\"; show(); }
        caller();
    ";
    assert_eq!(printed(source), (lines(&["outer"]), false));
}

#[test]
fn prints_callables_and_values() {
    assert_eq!(printed("fun f() {} print f;"), (lines(&["fn <f>"]), false));
    assert_eq!(printed("print clock;"), (lines(&["fn <clock>"]), false));
    assert_eq!(printed("print nil;"), (lines(&["nil"]), false));
    assert_eq!(printed("print true;"), (lines(&["true"]), false));
}

#[test]
fn clock_returns_the_reading_of_the_host() {
    let statements = parsed("print clock();");
    let mut interpreter = Interpreter::new();
    interpreter.clock = 1700000000;
    assert_eq!(interpreter.interpret(&statements), Ok(()));
    assert_eq!(interpreter.output, lines(&["1700000000.00"]));
}

#[test]
fn an_exhausted_budget_is_an_error() {
    let statements = parsed("while (true) {}");
    let mut interpreter = Interpreter::new();
    interpreter.budget = 1000;
    assert_eq!(
        interpreter.interpret(&statements),
        Err(InterpretError::RuntimeError { err: "Evaluation budget exhausted.".to_string() })
    );
}

#[test]
fn an_error_keeps_what_was_printed_before() {
    let statements = parsed("print 1; print missing; print 2;");
    let mut interpreter = Interpreter::new();
    assert!(interpreter.interpret(&statements).is_err());
    assert_eq!(interpreter.output, lines(&["1.00"]));
}

#[test]
fn a_loop_runs_many_times() {
    let source = "
        var sum = 0;
        for (var i = 1; i <= 10000; i = i + 1) { sum = sum + i; }
        print sum;
    ";
    assert_eq!(printed(source), (lines(&["50005000.00"]), false));
}

#[test]
fn calls_nest() {
    let source = "
        fun down(n) { if (n == 0) return 0; return 1 + down(n - 1); }
        print down(100);
    ";
    assert_eq!(printed(source), (lines(&["100.00"]), false));
}

#[test]
fn the_budget_bounds_how_deep_calls_nest() {
    let statements = parsed("fun f() { return f(); } f();");
    let mut interpreter = Interpreter::new();
    interpreter.budget = 200;
    assert_eq!(
        interpreter.interpret(&statements),
        Err(InterpretError::RuntimeError { err: "Evaluation budget exhausted.".to_string() })
    );
    assert_eq!(interpreter.environment.current, 0);
}

#[test]
fn a_return_outside_a_function_ends_its_statement_only() {
    assert_eq!(printed("return 1; print 2;"), (lines(&["2.00"]), false));
    assert_eq!(printed("{ print 1; return; print 2; } print 3;"), (lines(&["1.00", "3.00"]), false));
}

#[test]
fn arguments_are_evaluated_from_left_to_right() {
    let source = "
        fun show(x) { print x; return x; }
        fun pair(a, b) { return a + b; }
        print pair(show(1), show(2));
    ";
    assert_eq!(printed(source), (lines(&["1.00", "2.00", "3.00"]), false));
}

#[test]
fn arguments_are_evaluated_before_the_callee_is_checked() {
    let statements = parsed("var f = 3; f(missing);");
    let mut interpreter = Interpreter::new();
    assert_eq!(
        interpreter.interpret(&statements),
        Err(InterpretError::UndefinedVariable { lexeme: "missing".to_string() })
    );
}

#[test]
fn arithmetic_on_large_numbers() {
    assert_eq!(
        printed("var big = 9000000000000; print big * 2;"),
        (lines(&["18000000000000.00"]), false)
    );
    assert_eq!(
        printed("print 9223372036854.775807 + 1;"),
        (lines(&["9223372036855.78"]), false)
    );
    assert_eq!(
        printed("print 123456789012345678901234.5 * 10;"),
        (lines(&["1234567890123456789012345.00"]), false)
    );
}

#[test]
fn arithmetic_beyond_the_range_gives_the_end_of_the_range() {
    let most = "100000000000000000000000000.00";
    assert_eq!(printed("print 100000000000000000000000000 + 1;"), (lines(&[most]), false));
    assert_eq!(
        printed("print 99999999999999999999999999 * 99999999999999999999999999;"),
        (lines(&[most]), false)
    );
    assert_eq!(
        printed("print -99999999999999999999999999 * 99999999999999999999999999;"),
        (lines(&["-100000000000000000000000000.00"]), false)
    );
    assert_eq!(
        printed("print 1000000000000000000000000000000000000000;"),
        (lines(&[most]), false)
    );
    assert_eq!(printed("print 99999999999999999999999999 / 0.000001;"), (lines(&[most]), false));
}

#[test]
fn negation_of_any_number_is_a_number() {
    assert_eq!(printed("print -0;"), (lines(&["-0.00"]), false));
    assert_eq!(printed("print -0 == 0;"), (lines(&["true"]), false));
    assert_eq!(printed("print --5;"), (lines(&["5.00"]), false));
    assert_eq!(
        printed("print -100000000000000000000000000;"),
        (lines(&["-100000000000000000000000000.00"]), false)
    );
    assert_eq!(printed("print 0 - 0;"), (lines(&["0.00"]), false));
}

#[test]
fn statements_of_the_interpreter_one_by_one() {
    let statements = parsed("var a = 1; { var a = 2; } print a; a + 1;");
    let mut interpreter = Interpreter::new();
    for statement in &statements {
        assert_eq!(interpreter.stmt_execute(statement, 100), Ok(None));
    }
    assert_eq!(interpreter.output, lines(&["1.00"]));
    assert_eq!(interpreter.environment.scopes.len(), 1);
    assert_eq!(interpreter.stmt_evaluate(&statements[2], 0).is_err(), true);
    match &statements[3] {
        Stmt::Expression(e) => {
            assert_eq!(
                interpreter.evaluate(e, 100),
                Ok(rlox::value::Evaluation::Number(rlox::number::Number::from_units(2_000_000)))
            );
            assert!(interpreter.evaluate(e, 1).is_err());
        }
        other => panic!("not an expression statement: {:?}", other),
    }
    match &statements[1] {
        Stmt::Block(block) => {
            assert_eq!(interpreter.stmt_execute_block(&block.statements, 0, 100), Ok(None));
            assert_eq!(interpreter.environment.current, 0);
            assert_eq!(interpreter.environment.scopes.len(), 1);
        }
        other => panic!("not a block: {:?}", other),
    }
}

#[test]
fn scopes_are_discarded_when_they_are_left() {
    let source = "
        var sum = 0;
        for (var i = 1; i <= 100; i = i + 1) { var twice = i * 2; sum = sum + twice; }
        fun f(n) { if (n == 0) return 0; { var m = n - 1; return f(m); } }
        f(20);
        print sum;
    ";
    let statements = parsed(source);
    let mut interpreter = Interpreter::new();
    assert_eq!(interpreter.interpret(&statements), Ok(()));
    assert_eq!(interpreter.output, lines(&["10100.00"]));
    assert_eq!(interpreter.environment.scopes.len(), 1);
    assert_eq!(interpreter.environment.current, 0);
}

#[test]
fn a_scope_in_which_a_function_was_declared_stays() {
    let source = "
        fun counter() {
            var count = 0;
            fun increment() { count = count + 1; return count; }
            return increment;
        }
        var first = counter();
        { var unrelated = 1; }
        var second = counter();
        print first();
        { var unrelated = 2; }
        print first();
        print second();
    ";
    let statements = parsed(source);
    let mut interpreter = Interpreter::new();
    assert_eq!(interpreter.interpret(&statements), Ok(()));
    assert_eq!(interpreter.output, lines(&["1.00", "2.00", "1.00"]));
    assert_eq!(interpreter.environment.scopes.len(), 3);
    assert!(interpreter.environment.scopes[1].captured);
    assert!(interpreter.environment.scopes[2].captured);
    assert!(interpreter.environment.is_well_formed());
}

#[test]
fn a_counter_changes_the_binding_it_was_declared_with() {
    let source = "
        var c = 0;
        fun inc() { c = c + 1; return c; }
        print inc();
        print inc();
        print c;
    ";
    assert_eq!(printed(source), (lines(&["1.00", "2.00", "2.00"]), false));
}
