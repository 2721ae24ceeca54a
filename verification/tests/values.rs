use rlox::ast::ast_print;
use rlox::errors::InterpretError;
use rlox::expr::{Expr, ExprBinary, ExprGrouping, ExprLiteral, ExprUnary};
use rlox::interpreter::Interpreter;
use rlox::number::Number;
use rlox::reserved::keyword;
use rlox::stmt::StmtFunction;
use rlox::text::chars_of;
use rlox::token::{Literal, Token, TokenType};
use rlox::value::{Callable, Evaluation, Native, NativeFunction, RloxFunction};

fn number<'a>(units: i128) -> Evaluation<'a> {
    Evaluation::Number(Number::from_units(units))
}

fn text<'a>(s: &str) -> Evaluation<'a> {
    Evaluation::Text(s.to_string())
}

fn operator(token_type: TokenType, lexeme: &str) -> Token {
    Token::new(token_type, lexeme.to_string(), None, 1)
}

#[test]
fn values_are_equal_to_their_like_only() {
    assert!(text("a") == text("a"));
    assert!(text("a") != text("b"));
    assert!(number(1) == number(1));
    assert!(number(1) != number(2));
    assert!(Evaluation::Boolean(true) == Evaluation::Boolean(true));
    assert!(Evaluation::Boolean(true) != Evaluation::Boolean(false));
    assert!(Evaluation::Nil == Evaluation::Nil);
    assert!(Evaluation::Nil != Evaluation::Boolean(false));
    assert!(number(0) != text("0"));
    assert!(number(0) != Evaluation::Nil);
}

#[test]
fn callables_are_equal_to_nothing() {
    let clock = || {
        Evaluation::Callable(Callable::Native(NativeFunction::new(
            "clock".to_string(),
            Native::Clock,
        )))
    };
    assert!(clock() != clock());
    let declaration = StmtFunction::new(operator(TokenType::Identifier, "f"), vec![], vec![]);
    let function = Evaluation::Callable(Callable::User(RloxFunction::new(&declaration, 0)));
    assert!(function != function.clone());
}

#[test]
fn renders_values() {
    assert_eq!(text("plain").render(), "plain");
    assert_eq!(number(1_500_000).render(), "1.50");
    assert_eq!(Evaluation::Boolean(true).render(), "true");
    assert_eq!(Evaluation::Boolean(false).render(), "false");
    assert_eq!(Evaluation::Nil.render(), "nil");
    let declaration = StmtFunction::new(operator(TokenType::Identifier, "f"), vec![], vec![]);
    let function = Callable::User(RloxFunction::new(&declaration, 0));
    assert_eq!(function.display(), "f");
    assert_eq!(function.arity(), 0);
    assert_eq!(Evaluation::Callable(function).render(), "fn <f>");
}

#[test]
fn values_of_literals() {
    assert_eq!(Evaluation::from_literal(&Literal::Text("a".to_string())), text("a"));
    assert_eq!(Evaluation::from_literal(&Literal::Number(Number::from_units(5))), number(5));
    assert_eq!(Evaluation::from_literal(&Literal::Boolean(true)), Evaluation::Boolean(true));
    assert_eq!(Evaluation::from_literal(&Literal::Nil), Evaluation::Nil);
}

#[test]
fn arity_of_callables() {
    let native = NativeFunction::new("clock".to_string(), Native::Clock);
    assert_eq!(native.arity(), 0);
    assert_eq!(native.display(), "clock");
    let params = vec![operator(TokenType::Identifier, "a"), operator(TokenType::Identifier, "b")];
    let declaration = StmtFunction::new(operator(TokenType::Identifier, "f"), params, vec![]);
    assert_eq!(RloxFunction::new(&declaration, 3).arity(), 2);
    assert_eq!(RloxFunction::new(&declaration, 3).closure, 3);
}

#[test]
fn adds_texts_and_numbers() {
    assert_eq!(text("a").add(text("b")), Ok(text("ab")));
    assert_eq!(number(1).add(number(2)), Ok(number(3)));
    assert_eq!(number(i64::MAX as i128).add(number(1)), Ok(number(i64::MAX as i128 + 1)));
    assert_eq!(number(i128::MAX).add(number(i128::MAX)), Ok(number(i128::MAX)));
    assert_eq!(number(2).add(number(-5)), Ok(number(-3)));
    assert_eq!(
        number(1).add(text("a")),
        Err(InterpretError::EvaluationAddOverloaderError { lhs: number(1), rhs: text("a") })
    );
    assert_eq!(
        Evaluation::Nil.add(Evaluation::Nil),
        Err(InterpretError::EvaluationAddOverloaderError {
            lhs: Evaluation::Nil,
            rhs: Evaluation::Nil
        })
    );
}

#[test]
fn unary_operators_on_values() {
    assert_eq!(Interpreter::evaluate_unary(number(5), TokenType::Minus), Ok(number(-5)));
    assert_eq!(
        Interpreter::evaluate_unary(Evaluation::Boolean(true), TokenType::Bang),
        Ok(Evaluation::Boolean(false))
    );
    assert_eq!(
        Interpreter::evaluate_unary(Evaluation::Nil, TokenType::Bang),
        Ok(Evaluation::Boolean(true))
    );
    assert_eq!(
        Interpreter::evaluate_unary(text("a"), TokenType::Bang),
        Err(InterpretError::EvaluateUnaryFail {
            right_evaluation: text("a"),
            operator_type: TokenType::Bang
        })
    );
    assert_eq!(
        Interpreter::evaluate_unary(Evaluation::Boolean(true), TokenType::Minus),
        Err(InterpretError::EvaluateUnaryFail {
            right_evaluation: Evaluation::Boolean(true),
            operator_type: TokenType::Minus
        })
    );
    assert_eq!(
        Interpreter::evaluate_unary(number(i64::MIN as i128), TokenType::Minus),
        Ok(number(-(i64::MIN as i128)))
    );
    assert_eq!(
        Interpreter::evaluate_unary(number(i128::MIN), TokenType::Minus),
        Ok(number(i128::MAX))
    );
    let twice = Interpreter::evaluate_unary(
        Interpreter::evaluate_unary(number(0), TokenType::Minus).unwrap(),
        TokenType::Minus,
    );
    assert_eq!(twice, Ok(number(0)));
}

#[test]
fn binary_operators_on_values() {
    let apply = Interpreter::evaluate_binary;
    assert_eq!(apply(number(5), number(3), TokenType::Minus), Ok(number(2)));
    assert_eq!(
        apply(number(2_000_000), number(3_000_000), TokenType::Star),
        Ok(number(6_000_000))
    );
    assert_eq!(
        apply(number(1_000_000), number(4_000_000), TokenType::Slash),
        Ok(number(250_000))
    );
    assert_eq!(apply(number(1), number(2), TokenType::Less), Ok(Evaluation::Boolean(true)));
    assert_eq!(apply(number(2), number(2), TokenType::Less), Ok(Evaluation::Boolean(false)));
    assert_eq!(apply(number(2), number(2), TokenType::LessEqual), Ok(Evaluation::Boolean(true)));
    assert_eq!(apply(number(3), number(2), TokenType::Greater), Ok(Evaluation::Boolean(true)));
    assert_eq!(
        apply(number(1), number(2), TokenType::GreaterEqual),
        Ok(Evaluation::Boolean(false))
    );
    assert_eq!(apply(text("a"), text("a"), TokenType::EqualEqual), Ok(Evaluation::Boolean(true)));
    assert_eq!(apply(text("a"), number(1), TokenType::BangEqual), Ok(Evaluation::Boolean(true)));
    assert_eq!(
        apply(text("a"), text("b"), TokenType::Minus),
        Err(InterpretError::EvaluateBinaryFail {
            left_evaluation: text("a"),
            operator_type: TokenType::Minus,
            right_evaluation: text("b")
        })
    );
    assert_eq!(
        apply(number(1), number(2), TokenType::Comma),
        Err(Interpreter::binary_fail(number(1), TokenType::Comma, number(2)))
    );
    assert_eq!(
        apply(number(i64::MAX as i128), number(2_000_000), TokenType::Star),
        Ok(number(2 * (i64::MAX as i128)))
    );
    assert_eq!(
        apply(number(1_000_000), number(0), TokenType::Slash),
        Err(InterpretError::RuntimeError { err: "Division by zero.".to_string() })
    );
}

#[test]
fn prints_expressions() {
    let expr = Expr::Binary(ExprBinary::new(
        Expr::Unary(ExprUnary::new(
            operator(TokenType::Minus, "-"),
            Expr::Literal(ExprLiteral::new(Literal::Number(Number::from_units(123_000_000)))),
        )),
        operator(TokenType::Star, "*"),
        Expr::Grouping(ExprGrouping::new(Expr::Literal(ExprLiteral::new(Literal::Number(
            Number::from_units(45_670_000),
        ))))),
    ));
    assert_eq!(ast_print(&expr), "(* (- (123.00)) (group (45.67)))");
    assert_eq!(
        Expr::parenthesize("+", &vec!["a".to_string(), "(b)".to_string()]),
        "(+ a (b))"
    );
    assert_eq!(Expr::parenthesize("x", &Vec::new()), "(x)");
}

#[test]
fn renders_literals() {
    assert_eq!(Literal::Text("t".to_string()).render(), "t");
    assert_eq!(Literal::Number(Number::from_units(2_000_000)).render(), "2.00");
    assert_eq!(Literal::Boolean(false).render(), "false");
    assert_eq!(Literal::Nil.render(), "null");
}

#[test]
fn looks_up_reserved_words() {
    assert_eq!(keyword(&chars_of("while")), Some(TokenType::While));
    assert_eq!(keyword(&chars_of("and")), Some(TokenType::And));
    assert_eq!(keyword(&chars_of("While")), None);
    assert_eq!(keyword(&chars_of("whil")), None);
    assert_eq!(keyword(&chars_of("")), None);
}

#[test]
fn a_function_whose_scope_does_not_exist_cannot_be_called() {
    let declaration = StmtFunction::new(operator(TokenType::Identifier, "f"), vec![], vec![]);
    let function = RloxFunction::new(&declaration, 9);
    let mut interpreter = Interpreter::new();
    assert_eq!(
        function.call(&mut interpreter, &Vec::new(), 10),
        Err(InterpretError::RuntimeError { err: "Function scope does not exist.".to_string() })
    );
    assert_eq!(RloxFunction::new(&declaration, 0).call(&mut interpreter, &Vec::new(), 10), Ok(None));
    assert_eq!(interpreter.environment.current, 0);
    assert_eq!(interpreter.environment.scopes.len(), 1);
}

#[test]
fn a_direct_call_with_the_wrong_number_of_arguments_fails() {
    let params = vec![operator(TokenType::Identifier, "a"), operator(TokenType::Identifier, "b")];
    let declaration = StmtFunction::new(operator(TokenType::Identifier, "f"), params, vec![]);
    let function = RloxFunction::new(&declaration, 0);
    let mut interpreter = Interpreter::new();
    let wrong = InterpretError::RuntimeError {
        err: "Expected '2' arguments but got '1'".to_string(),
    };
    assert_eq!(function.call(&mut interpreter, &vec![number(1)], 10), Err(wrong));
    assert_eq!(interpreter.environment.scopes.len(), 1);
    assert_eq!(interpreter.environment.scopes[0].bindings.len(), 1);
    assert_eq!(function.call(&mut interpreter, &vec![number(1), number(2)], 10), Ok(None));
    let callable = Callable::User(function);
    assert_eq!(
        callable.call(&mut interpreter, &Vec::new(), 10),
        Err(InterpretError::RuntimeError {
            err: "Expected '2' arguments but got '0'".to_string()
        })
    );
    let clock = NativeFunction::new("clock".to_string(), Native::Clock);
    assert_eq!(
        clock.call(&interpreter, &vec![number(1)]),
        Err(InterpretError::RuntimeError {
            err: "Expected '0' arguments but got '1'".to_string()
        })
    );
    assert_eq!(clock.call(&interpreter, &Vec::new()), Ok(Some(number(0))));
}
