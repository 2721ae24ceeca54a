use rlox::environment::Environment;
use rlox::errors::InterpretError;
use rlox::number::Number;
use rlox::token::{Token, TokenType};
use rlox::value::Evaluation;

fn name(lexeme: &str) -> Token {
    Token::new(TokenType::Identifier, lexeme.to_string(), None, 1)
}

fn number<'a>(wholes: i128) -> Evaluation<'a> {
    Evaluation::Number(Number::from_units(wholes * 1_000_000))
}

fn undefined<'a>(lexeme: &str) -> InterpretError<'a> {
    InterpretError::UndefinedVariable { lexeme: lexeme.to_string() }
}

#[test]
fn a_new_environment_has_one_empty_scope() {
    let environment = Environment::new();
    assert!(environment.is_well_formed());
    assert_eq!(environment.scopes.len(), 1);
    assert_eq!(environment.current, 0);
    assert_eq!(environment.get(&name("x")), Err(undefined("x")));
}

#[test]
fn define_binds_and_rebinds() {
    let mut environment = Environment::new();
    environment.define("x".to_string(), Some(number(1)));
    assert_eq!(environment.get(&name("x")), Ok(number(1)));
    environment.define("x".to_string(), Some(Evaluation::Text("again".to_string())));
    assert_eq!(environment.get(&name("x")), Ok(Evaluation::Text("again".to_string())));
    assert_eq!(environment.scopes[0].bindings.len(), 1);
    environment.define("y".to_string(), Some(number(2)));
    assert_eq!(environment.get(&name("x")), Ok(Evaluation::Text("again".to_string())));
    assert_eq!(environment.get(&name("y")), Ok(number(2)));
}

#[test]
fn get_looks_outward() {
    let mut environment = Environment::new();
    environment.define("outer".to_string(), Some(number(1)));
    environment.define("both".to_string(), Some(number(2)));
    let previous = environment.enter(0);
    assert_eq!(previous, 0);
    assert_eq!(environment.current, 1);
    environment.define("both".to_string(), Some(number(3)));
    assert_eq!(environment.get(&name("outer")), Ok(number(1)));
    assert_eq!(environment.get(&name("both")), Ok(number(3)));
    environment.resume(previous);
    assert_eq!(environment.get(&name("both")), Ok(number(2)));
}

#[test]
fn a_name_without_value_is_undefined_whatever_is_further_out() {
    let mut environment = Environment::new();
    environment.define("x".to_string(), Some(number(1)));
    environment.enter(0);
    environment.define("x".to_string(), None);
    assert_eq!(environment.get(&name("x")), Err(undefined("x")));
    environment.define("y".to_string(), None);
    assert_eq!(environment.get(&name("y")), Err(undefined("y")));
    environment.resume(0);
    assert_eq!(environment.get(&name("x")), Ok(number(1)));
}

#[test]
fn assign_changes_the_nearest_scope_that_has_the_name() {
    let mut environment = Environment::new();
    environment.define("x".to_string(), Some(number(1)));
    environment.enter(0);
    assert_eq!(environment.assign(&name("x"), number(5)), Ok(()));
    assert_eq!(environment.scopes[1].bindings.len(), 0);
    environment.define("x".to_string(), None);
    assert_eq!(environment.assign(&name("x"), number(7)), Ok(()));
    assert_eq!(environment.get(&name("x")), Ok(number(7)));
    environment.resume(0);
    assert_eq!(environment.get(&name("x")), Ok(number(5)));
}

#[test]
fn assign_creates_no_binding() {
    let mut environment = Environment::new();
    assert_eq!(environment.assign(&name("x"), number(1)), Err(undefined("x")));
    assert_eq!(environment.scopes[0].bindings.len(), 0);
    environment.enter(0);
    assert_eq!(environment.assign(&name("x"), number(1)), Err(undefined("x")));
    assert_eq!(environment.get(&name("x")), Err(undefined("x")));
}

#[test]
fn scopes_that_do_not_enclose_are_not_searched() {
    let mut environment = Environment::new();
    environment.enter(0);
    environment.define("sibling".to_string(), Some(number(1)));
    environment.resume(0);
    environment.enter(0);
    assert_eq!(environment.current, 2);
    assert_eq!(environment.get(&name("sibling")), Err(undefined("sibling")));
    assert!(environment.is_well_formed());
}

#[test]
fn an_environment_with_a_scope_enclosed_by_a_younger_one_is_not_well_formed() {
    let mut environment = Environment::new();
    environment.enter(0);
    assert!(environment.is_well_formed());
    environment.scopes[0].enclosing = Some(1);
    assert!(!environment.is_well_formed());
    environment.scopes[0].enclosing = None;
    environment.current = 2;
    assert!(!environment.is_well_formed());
}

#[test]
fn leaving_discards_the_youngest_scope_unless_a_function_was_declared_in_it() {
    let mut environment = Environment::new();
    let previous = environment.enter(0);
    environment.define("x".to_string(), Some(number(1)));
    environment.leave(previous);
    assert_eq!(environment.scopes.len(), 1);
    assert_eq!(environment.current, 0);

    let previous = environment.enter(0);
    environment.capture();
    environment.leave(previous);
    assert_eq!(environment.scopes.len(), 2);
    assert_eq!(environment.current, 0);

    let outer = environment.enter(0);
    let inner = environment.enter(2);
    environment.capture();
    environment.leave(inner);
    assert_eq!(environment.current, 2);
    environment.leave(outer);
    assert_eq!(environment.scopes.len(), 4);
    assert_eq!(environment.current, 0);
    assert!(environment.is_well_formed());
}
