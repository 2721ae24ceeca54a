//! The evaluator: it walks statements and expressions and computes what
//! [`crate::semantics`] says they mean.

use vstd::prelude::*;
use vstd::string::StringExecFns;
use crate::environment::{optional_view, Environment, EnvironmentView};
use crate::errors::{InterpretError, InterpretErrorView};
use crate::expr::{Expr, ExprAssign, ExprBinary, ExprCall, ExprLogical, ExprUnary};
use crate::number::{digits_of, Number};
use crate::semantics;
use crate::semantics::InterpreterView;
use crate::stmt::{Stmt, StmtIf, StmtReturn, StmtVar, StmtWhile};
use crate::text::string_from_chars;
use crate::token::TokenType;
use crate::value::{
    Callable,
    CallableView,
    Evaluation,
    EvaluationView,
    Native,
    NativeFunction,
    NativeFunctionView,
    RloxFunction,
};

verus! {

/// The model of the result of an evaluation.
pub open spec fn evaluation_view(r: Result<Evaluation, InterpretError>) -> Result<
    EvaluationView,
    InterpretErrorView,
> {
    match r {
        Ok(v) => Ok(v@),
        Err(e) => Err(e@),
    }
}

/// The model of the result of an execution.
pub open spec fn execution_view(r: Result<Option<Evaluation>, InterpretError>) -> Result<
    Option<EvaluationView>,
    InterpretErrorView,
> {
    match r {
        Ok(v) => Ok(optional_view(v)),
        Err(e) => Err(e@),
    }
}

/// The model of the result of a run.
pub open spec fn run_view(r: Result<(), InterpretError>) -> Result<(), InterpretErrorView> {
    match r {
        Ok(_) => Ok(()),
        Err(e) => Err(e@),
    }
}

/// The models of a sequence of values, in order.
pub open spec fn value_views(values: Seq<Evaluation>) -> Seq<EvaluationView> {
    Seq::new(values.len(), |i: int| values[i]@)
}

/// The contents of a sequence of strings, in order.
pub open spec fn text_views(lines: Seq<String>) -> Seq<Seq<char>> {
    Seq::new(lines.len(), |i: int| lines[i]@)
}

/// The host function `clock` as programs see it.
pub open spec fn clock_function() -> EvaluationView {
    EvaluationView::Callable(
        CallableView::Native(
            NativeFunctionView { arity: 0, fn_name: "clock"@, fun: Native::Clock },
        ),
    )
}

/// The state in which a run begins: one scope, in which `clock` is bound
/// to the host function, and nothing printed.
pub open spec fn initial_state(clock: u64) -> InterpreterView {
    InterpreterView {
        environment: EnvironmentView::initial().define("clock"@, Some(clock_function())),
        output: Seq::empty(),
        clock,
    }
}

/// The error with the given message.
fn runtime_error<'a>(message: &str) -> (r: InterpretError<'a>)
    ensures
        r@ == semantics::runtime_error(message@),
{
    InterpretError::RuntimeError { err: message.to_owned() }
}

/// The error for an exhausted budget.
fn budget_error<'a>() -> (r: InterpretError<'a>)
    ensures
        r@ == semantics::runtime_error(semantics::budget_message()),
{
    runtime_error("Evaluation budget exhausted.")
}

/// The error for a call with the wrong number of arguments.
fn arity_error<'a>(arity: usize, given: usize) -> (r: InterpretError<'a>)
    ensures
        r@ == semantics::runtime_error(semantics::arity_message(arity as nat, given as nat)),
{
    let mut text = "Expected '".to_owned();
    let expected = string_from_chars(&digits_of(arity as u128));
    text.append(expected.as_str());
    text.append("' arguments but got '");
    let got = string_from_chars(&digits_of(given as u128));
    text.append(got.as_str());
    text.append("'");
    InterpretError::RuntimeError { err: text }
}

/// The error for a value that is not of the kind `expect`.
fn cast_error<'a>(expect: &str, actual: &Evaluation<'a>) -> (r: InterpretError<'a>)
    ensures
        r@ == semantics::cast_error(expect@, actual@),
{
    InterpretError::CastError { expect: expect.to_owned(), actual: actual.render() }
}

impl<'a> Evaluation<'a> {
    /// The sum of two values: two texts are joined and two numbers are
    /// added; any other pair of operands is an error.
    pub fn add(self, rhs: Self) -> (r: Result<Evaluation<'a>, InterpretError<'a>>)
        ensures
            evaluation_view(r) == semantics::addition(self@, rhs@),
    {
        match (&self, &rhs) {
            (Evaluation::Text(a), Evaluation::Text(b)) => {
                let mut joined = a.clone();
                joined.append(b.as_str());
                Ok(Evaluation::Text(joined))
            },
            (Evaluation::Number(a), Evaluation::Number(b)) => Ok(Evaluation::Number(a.plus(*b))),
            _ => Err(InterpretError::EvaluationAddOverloaderError { lhs: self, rhs }),
        }
    }
}

/// An interpreter: the state of one run.
#[derive(Debug)]
pub struct Interpreter<'a> {
    /// The scopes of the run; the first is the global scope.
    pub environment: Environment<'a>,
    /// The lines that `print` has written, oldest first.
    pub output: Vec<String>,
    /// The host's clock reading in whole seconds, which `clock` returns.
    pub clock: u64,
    /// The budget that each top-level statement is run with.
    pub budget: u64,
}

impl<'a> View for Interpreter<'a> {
    type V = InterpreterView;

    open spec fn view(&self) -> InterpreterView {
        InterpreterView {
            environment: self.environment@,
            output: text_views(self.output@),
            clock: self.clock,
        }
    }
}

impl NativeFunction {
    /// Runs the host function. With another number of arguments than it
    /// takes the call fails.
    pub fn call<'a>(&self, interpreter: &Interpreter<'a>, arguments: &Vec<Evaluation<'a>>) -> (r:
        Result<Option<Evaluation<'a>>, InterpretError<'a>>)
        ensures
            (interpreter@, execution_view(r)) == semantics::call(
                interpreter@,
                CallableView::Native(self@),
                value_views(arguments@),
                0,
            ),
    {
        let arity = self.arity();
        if arguments.len() != arity {
            return Err(arity_error(arity, arguments.len()));
        }
        match self.fun {
            Native::Clock => Ok(Some(Evaluation::Number(Number::from_whole(interpreter.clock)))),
        }
    }
}

impl<'a> RloxFunction<'a> {
    /// Calls the function: binds the parameters to the arguments in a new
    /// scope enclosed by the scope of the declaration, runs the body
    /// there, and makes the caller's scope the innermost again. The
    /// result is the value of the `return` that fired, if one did. With
    /// another number of arguments than the function has parameters the
    /// call fails.
    pub fn call(&self, interpreter: &mut Interpreter<'a>, arguments: &Vec<Evaluation<'a>>, fuel: u64) -> (r:
        Result<Option<Evaluation<'a>>, InterpretError<'a>>)
        requires
            old(interpreter)@.environment.well_formed(),
        ensures
            (final(interpreter)@, execution_view(r)) == semantics::call(
                old(interpreter)@,
                Callable::User(*self)@,
                value_views(arguments@),
                fuel as nat,
            ),
            final(interpreter)@.extends(old(interpreter)@),
            final(interpreter).budget == old(interpreter).budget,
        decreases fuel, 0nat,
    {
        let arity = self.arity();
        if arguments.len() != arity {
            return Err(arity_error(arity, arguments.len()));
        }
        if self.closure >= interpreter.environment.scopes.len() {
            return Err(runtime_error("Function scope does not exist."));
        }
        if fuel == 0 {
            return Err(budget_error());
        }
        let previous = interpreter.environment.enter(self.closure);
        let params = &self.declaration.params;
        let mut i: usize = 0;
        while i < params.len() && i < arguments.len()
            invariant
                i <= params.len(),
                interpreter@.environment.well_formed(),
                interpreter@.environment.scopes.len() == old(interpreter)@.environment.scopes.len()
                    + 1,
                interpreter.output == old(interpreter).output,
                interpreter.clock == old(interpreter).clock,
                interpreter.budget == old(interpreter).budget,
                semantics::bind(
                    interpreter@.environment,
                    self.declaration@.params,
                    value_views(arguments@),
                    i as int,
                ) == semantics::bind(
                    old(interpreter)@.environment.enter(self.closure),
                    self.declaration@.params,
                    value_views(arguments@),
                    0,
                ),
                params@ == self.declaration.params@,
            decreases params.len() - i,
        {
            interpreter.environment.define(params[i].lexeme.clone(), Some(arguments[i].clone()));
            i += 1;
        }
        let result = interpreter.execute_all(&self.declaration.body, fuel - 1);
        interpreter.environment.leave(previous);
        result
    }
}

impl<'a> Callable<'a> {
    /// Calls the callable with the given arguments.
    pub fn call(&self, interpreter: &mut Interpreter<'a>, arguments: &Vec<Evaluation<'a>>, fuel: u64) -> (r:
        Result<Option<Evaluation<'a>>, InterpretError<'a>>)
        requires
            old(interpreter)@.environment.well_formed(),
        ensures
            (final(interpreter)@, execution_view(r)) == semantics::call(
                old(interpreter)@,
                self@,
                value_views(arguments@),
                fuel as nat,
            ),
            final(interpreter)@.extends(old(interpreter)@),
            final(interpreter).budget == old(interpreter).budget,
        decreases fuel, 1nat,
    {
        match self {
            Callable::Native(f) => f.call(interpreter, arguments),
            Callable::User(f) => f.call(interpreter, arguments, fuel),
        }
    }
}

impl<'a> Interpreter<'a> {
    /// An interpreter at the beginning of a run, with the clock reading
    /// zero and the largest budget.
    pub fn new() -> (r: Self)
        ensures
            r@ == initial_state(0),
            r@.environment.well_formed(),
            r.budget == u64::MAX,
    {
        let mut environment = Environment::new();
        let clock = NativeFunction::new("clock".to_owned(), Native::Clock);
        environment.define(
            "clock".to_owned(),
            Some(Evaluation::Callable(Callable::Native(clock))),
        );
        let r = Self { environment, output: Vec::new(), clock: 0, budget: u64::MAX };
        assert(r@.output =~= Seq::empty());
        r
    }

    /// Runs the statements in order, each with the whole budget. The first
    /// error ends the run and is returned; what was printed until then
    /// stays in `output`.
    pub fn interpret(&mut self, statements: &'a Vec<Stmt>) -> (r: Result<(), InterpretError<'a>>)
        requires
            old(self)@.environment.well_formed(),
        ensures
            (final(self)@, run_view(r)) == semantics::interpret(
                old(self)@,
                Stmt::models(statements@),
                0,
                old(self).budget as nat,
            ),
            final(self)@.extends(old(self)@),
            final(self).budget == old(self).budget,
    {
        let mut i: usize = 0;
        while i < statements.len()
            invariant
                i <= statements.len(),
                self@.extends(old(self)@),
                self.budget == old(self).budget,
                semantics::interpret(
                    self@,
                    Stmt::models(statements@),
                    i as int,
                    self.budget as nat,
                ) == semantics::interpret(
                    old(self)@,
                    Stmt::models(statements@),
                    0,
                    old(self).budget as nat,
                ),
            decreases statements.len() - i,
        {
            let budget = self.budget;
            match self.stmt_execute(&statements[i], budget) {
                Ok(_) => {},
                Err(e) => {
                    return Err(e);
                },
            }
            i += 1;
        }
        Ok(())
    }

    /// Executes one statement. The result is `Some` value where a `return`
    /// fired.
    pub fn stmt_execute(&mut self, stmt: &'a Stmt, fuel: u64) -> (r: Result<
        Option<Evaluation<'a>>,
        InterpretError<'a>,
    >)
        requires
            old(self)@.environment.well_formed(),
        ensures
            (final(self)@, execution_view(r)) == semantics::execute(
                old(self)@,
                stmt@,
                fuel as nat,
            ),
            final(self)@.extends(old(self)@),
            final(self).budget == old(self).budget,
        decreases fuel, 2nat,
    {
        self.stmt_evaluate(stmt, fuel)
    }

    /// Executes one statement, by its kind.
    pub fn stmt_evaluate(&mut self, stmt: &'a Stmt, fuel: u64) -> (r: Result<
        Option<Evaluation<'a>>,
        InterpretError<'a>,
    >)
        requires
            old(self)@.environment.well_formed(),
        ensures
            (final(self)@, execution_view(r)) == semantics::execute(
                old(self)@,
                stmt@,
                fuel as nat,
            ),
            final(self)@.extends(old(self)@),
            final(self).budget == old(self).budget,
        decreases fuel, 1nat,
    {
        if fuel == 0 {
            return Err(budget_error());
        }
        match stmt {
            Stmt::Return(s) => self.execute_return(stmt, s, fuel),
            Stmt::While(s) => self.execute_while(stmt, s, fuel),
            Stmt::If(s) => self.execute_if(stmt, s, fuel),
            Stmt::Function(s) => {
                let function = RloxFunction::new(s, self.environment.current);
                self.environment.capture();
                self.environment.define(
                    s.name.lexeme.clone(),
                    Some(Evaluation::Callable(Callable::User(function))),
                );
                Ok(None)
            },
            Stmt::Block(s) => {
                let enclosing = self.environment.current;
                self.stmt_execute_block(&s.statements, enclosing, fuel - 1)
            },
            Stmt::Expression(expr) => self.execute_expression(stmt, expr, fuel),
            Stmt::Print(expr) => self.execute_print(stmt, expr, fuel),
            Stmt::Var(s) => self.execute_var(stmt, s, fuel),
        }
    }

    /// Executes a `return`: a `return` without a value returns nil.
    fn execute_return(&mut self, stmt: &'a Stmt, s: &'a StmtReturn, fuel: u64) -> (r: Result<
        Option<Evaluation<'a>>,
        InterpretError<'a>,
    >)
        requires
            old(self)@.environment.well_formed(),
            *stmt == Stmt::Return(*s),
            fuel > 0,
        ensures
            (final(self)@, execution_view(r)) == semantics::execute(
                old(self)@,
                stmt@,
                fuel as nat,
            ),
            final(self)@.extends(old(self)@),
            final(self).budget == old(self).budget,
        decreases fuel, 0nat,
    {
        match &s.value {
            Some(expr) => match self.evaluate(expr, fuel - 1) {
                Ok(v) => Ok(Some(v)),
                Err(e) => Err(e),
            },
            None => Ok(Some(Evaluation::Nil)),
        }
    }

    /// Executes a conditional. The condition must be a boolean.
    fn execute_if(&mut self, stmt: &'a Stmt, s: &'a StmtIf, fuel: u64) -> (r: Result<
        Option<Evaluation<'a>>,
        InterpretError<'a>,
    >)
        requires
            old(self)@.environment.well_formed(),
            *stmt == Stmt::If(*s),
            fuel > 0,
        ensures
            (final(self)@, execution_view(r)) == semantics::execute(
                old(self)@,
                stmt@,
                fuel as nat,
            ),
            final(self)@.extends(old(self)@),
            final(self).budget == old(self).budget,
        decreases fuel, 0nat,
    {
        let value = match self.evaluate(&s.condition, fuel - 1) {
            Ok(v) => v,
            Err(e) => {
                return Err(e);
            },
        };
        match value {
            Evaluation::Boolean(true) => self.stmt_execute(&s.then_branch, fuel - 1),
            Evaluation::Boolean(false) => match &s.else_branch {
                Some(branch) => self.stmt_execute(branch, fuel - 1),
                None => Ok(None),
            },
            _ => Err(cast_error("Boolean", &value)),
        }
    }

    /// Executes an expression statement: evaluates and drops the value.
    fn execute_expression(&mut self, stmt: &'a Stmt, s: &'a Expr, fuel: u64) -> (r: Result<
        Option<Evaluation<'a>>,
        InterpretError<'a>,
    >)
        requires
            old(self)@.environment.well_formed(),
            *stmt == Stmt::Expression(*s),
            fuel > 0,
        ensures
            (final(self)@, execution_view(r)) == semantics::execute(
                old(self)@,
                stmt@,
                fuel as nat,
            ),
            final(self)@.extends(old(self)@),
            final(self).budget == old(self).budget,
        decreases fuel, 0nat,
    {
        match self.evaluate(s, fuel - 1) {
            Ok(_) => Ok(None),
            Err(e) => Err(e),
        }
    }

    /// Executes a `print`: adds the rendered value to the output.
    fn execute_print(&mut self, stmt: &'a Stmt, s: &'a Expr, fuel: u64) -> (r: Result<
        Option<Evaluation<'a>>,
        InterpretError<'a>,
    >)
        requires
            old(self)@.environment.well_formed(),
            *stmt == Stmt::Print(*s),
            fuel > 0,
        ensures
            (final(self)@, execution_view(r)) == semantics::execute(
                old(self)@,
                stmt@,
                fuel as nat,
            ),
            final(self)@.extends(old(self)@),
            final(self).budget == old(self).budget,
        decreases fuel, 0nat,
    {
        match self.evaluate(s, fuel - 1) {
            Ok(v) => {
                let line = v.render();
                proof {
                    assert(text_views(self.output@.push(line)) =~= text_views(self.output@).push(
                        line@,
                    ));
                }
                self.output.push(line);
                Ok(None)
            },
            Err(e) => Err(e),
        }
    }

    /// Executes a variable declaration. Without an initializer the name is
    /// bound to no value.
    fn execute_var(&mut self, stmt: &'a Stmt, s: &'a StmtVar, fuel: u64) -> (r: Result<
        Option<Evaluation<'a>>,
        InterpretError<'a>,
    >)
        requires
            old(self)@.environment.well_formed(),
            *stmt == Stmt::Var(*s),
            fuel > 0,
        ensures
            (final(self)@, execution_view(r)) == semantics::execute(
                old(self)@,
                stmt@,
                fuel as nat,
            ),
            final(self)@.extends(old(self)@),
            final(self).budget == old(self).budget,
        decreases fuel, 0nat,
    {
        match &s.initializer {
            Some(expr) => match self.evaluate(expr, fuel - 1) {
                Ok(v) => {
                    self.environment.define(s.name.lexeme.clone(), Some(v));
                    Ok(None)
                },
                Err(e) => Err(e),
            },
            None => {
                self.environment.define(s.name.lexeme.clone(), None);
                Ok(None)
            },
        }
    }

    /// Executes a loop: as long as the condition is true, the body.
    fn execute_while(&mut self, stmt: &'a Stmt, s: &'a StmtWhile, fuel: u64) -> (r: Result<
        Option<Evaluation<'a>>,
        InterpretError<'a>,
    >)
        requires
            old(self)@.environment.well_formed(),
            *stmt == Stmt::While(*s),
            fuel > 0,
        ensures
            (final(self)@, execution_view(r)) == semantics::execute(
                old(self)@,
                stmt@,
                fuel as nat,
            ),
            final(self)@.extends(old(self)@),
            final(self).budget == old(self).budget,
        decreases fuel, 0nat,
    {
        let mut remaining = fuel;
        loop
            invariant
                *stmt == Stmt::While(*s),
                remaining <= fuel,
                self@.extends(old(self)@),
                self.budget == old(self).budget,
                semantics::execute(self@, stmt@, remaining as nat) == semantics::execute(
                    old(self)@,
                    stmt@,
                    fuel as nat,
                ),
            decreases remaining,
        {
            if remaining == 0 {
                return Err(budget_error());
            }
            let value = match self.evaluate(&s.condition, remaining - 1) {
                Ok(v) => v,
                Err(e) => {
                    return Err(e);
                },
            };
            match value {
                Evaluation::Boolean(true) => {},
                Evaluation::Boolean(false) => {
                    return Ok(None);
                },
                _ => {
                    return Err(cast_error("Boolean", &value));
                },
            }
            match self.stmt_execute(&s.body, remaining - 1) {
                Ok(None) => {},
                Ok(Some(v)) => {
                    return Ok(Some(v));
                },
                Err(e) => {
                    return Err(e);
                },
            }
            remaining = remaining - 1;
        }
    }

    /// Executes the statements in a new scope enclosed by the scope
    /// `enclosing`, and makes the scope that was innermost before the
    /// innermost again, however the statements end.
    pub fn stmt_execute_block(&mut self, statements: &'a Vec<Stmt>, enclosing: usize, fuel: u64) -> (r:
        Result<Option<Evaluation<'a>>, InterpretError<'a>>)
        requires
            old(self)@.environment.well_formed(),
            enclosing < old(self)@.environment.scopes.len(),
        ensures
            (final(self)@, execution_view(r)) == semantics::execute_block(
                old(self)@,
                Stmt::models(statements@),
                enclosing,
                fuel as nat,
            ),
            final(self)@.extends(old(self)@),
            final(self).budget == old(self).budget,
        decreases fuel, 4nat,
    {
        let previous = self.environment.enter(enclosing);
        let result = self.execute_all(statements, fuel);
        self.environment.leave(previous);
        result
    }

    /// Executes the statements in order, in the innermost scope, until one
    /// fails or a `return` fires.
    fn execute_all(&mut self, statements: &'a Vec<Stmt>, fuel: u64) -> (r: Result<
        Option<Evaluation<'a>>,
        InterpretError<'a>,
    >)
        requires
            old(self)@.environment.well_formed(),
        ensures
            (final(self)@, execution_view(r)) == semantics::execute_all(
                old(self)@,
                Stmt::models(statements@),
                0,
                fuel as nat,
            ),
            final(self)@.extends(old(self)@),
            final(self).budget == old(self).budget,
        decreases fuel, 3nat,
    {
        let mut i: usize = 0;
        while i < statements.len()
            invariant
                i <= statements.len(),
                self@.extends(old(self)@),
                self.budget == old(self).budget,
                semantics::execute_all(
                    self@,
                    Stmt::models(statements@),
                    i as int,
                    fuel as nat,
                ) == semantics::execute_all(
                    old(self)@,
                    Stmt::models(statements@),
                    0,
                    fuel as nat,
                ),
            decreases statements.len() - i,
        {
            match self.stmt_execute(&statements[i], fuel) {
                Ok(None) => {},
                Ok(Some(v)) => {
                    return Ok(Some(v));
                },
                Err(e) => {
                    return Err(e);
                },
            }
            i += 1;
        }
        Ok(None)
    }

    /// Evaluates an expression.
    pub fn evaluate(&mut self, expr: &'a Expr, fuel: u64) -> (r: Result<
        Evaluation<'a>,
        InterpretError<'a>,
    >)
        requires
            old(self)@.environment.well_formed(),
        ensures
            (final(self)@, evaluation_view(r)) == semantics::evaluate(
                old(self)@,
                expr@,
                fuel as nat,
            ),
            final(self)@.extends(old(self)@),
            final(self).budget == old(self).budget,
        decreases fuel, 1nat,
    {
        if fuel == 0 {
            return Err(budget_error());
        }
        match expr {
            Expr::Assign(e) => self.evaluate_assign(expr, e, fuel),
            Expr::Literal(e) => Ok(Evaluation::from_literal(&e.literal)),
            Expr::Call(e) => self.evaluate_call(expr, e, fuel),
            Expr::Grouping(e) => self.evaluate(&e.expr, fuel - 1),
            Expr::Logical(e) => self.evaluate_logical(expr, e, fuel),
            Expr::Unary(e) => self.evaluate_negation(expr, e, fuel),
            Expr::Binary(e) => self.evaluate_operation(expr, e, fuel),
            Expr::Var(e) => self.environment.get(&e.name),
        }
    }

    /// Evaluates an assignment: the value of the right-hand side, which the
    /// variable is given.
    fn evaluate_assign(&mut self, expr: &'a Expr, e: &'a ExprAssign, fuel: u64) -> (r: Result<
        Evaluation<'a>,
        InterpretError<'a>,
    >)
        requires
            old(self)@.environment.well_formed(),
            *expr == Expr::Assign(*e),
            fuel > 0,
        ensures
            (final(self)@, evaluation_view(r)) == semantics::evaluate(
                old(self)@,
                expr@,
                fuel as nat,
            ),
            final(self)@.extends(old(self)@),
            final(self).budget == old(self).budget,
        decreases fuel, 0nat,
    {
        let value = match self.evaluate(&e.value, fuel - 1) {
            Ok(v) => v,
            Err(err) => {
                return Err(err);
            },
        };
        match self.environment.assign(&e.name, value.clone()) {
            Ok(()) => Ok(value),
            Err(err) => Err(err),
        }
    }

    /// Evaluates a call: the callee, then the arguments from left to right,
    /// then the call itself.
    fn evaluate_call(&mut self, expr: &'a Expr, e: &'a ExprCall, fuel: u64) -> (r: Result<
        Evaluation<'a>,
        InterpretError<'a>,
    >)
        requires
            old(self)@.environment.well_formed(),
            *expr == Expr::Call(*e),
            fuel > 0,
        ensures
            (final(self)@, evaluation_view(r)) == semantics::evaluate(
                old(self)@,
                expr@,
                fuel as nat,
            ),
            final(self)@.extends(old(self)@),
            final(self).budget == old(self).budget,
        decreases fuel, 0nat,
    {
        let callee = match self.evaluate(&e.callee, fuel - 1) {
            Ok(v) => v,
            Err(err) => {
                return Err(err);
            },
        };
        let ghost middle = self@;
        let mut arguments: Vec<Evaluation<'a>> = Vec::new();
        let mut i: usize = 0;
        assert(value_views(arguments@) =~= Seq::empty());
        while i < e.arguments.len()
            invariant
                fuel > 0,
                *expr == Expr::Call(*e),
                semantics::evaluate(old(self)@, e.callee@, (fuel - 1) as nat) == (
                    middle,
                    Ok::<EvaluationView, InterpretErrorView>(callee@),
                ),
                i <= e.arguments.len(),
                self@.extends(old(self)@),
                self.budget == old(self).budget,
                semantics::evaluate_arguments(
                    self@,
                    Expr::models(e.arguments@),
                    i as int,
                    value_views(arguments@),
                    (fuel - 1) as nat,
                ) == semantics::evaluate_arguments(
                    middle,
                    Expr::models(e.arguments@),
                    0,
                    Seq::empty(),
                    (fuel - 1) as nat,
                ),
            decreases e.arguments.len() - i,
        {
            assert(Expr::models(e.arguments@)[i as int] == e.arguments@[i as int]@);
            match self.evaluate(&e.arguments[i], fuel - 1) {
                Ok(v) => {
                    proof {
                        assert(value_views(arguments@.push(v)) =~= value_views(arguments@).push(
                            v@,
                        ));
                    }
                    arguments.push(v);
                },
                Err(err) => {
                    return Err(err);
                },
            }
            i += 1;
        }
        self.invoke(callee, &arguments, fuel - 1)
    }

    /// Evaluates `and` or `or`: the right operand is evaluated only where
    /// the left one does not decide.
    fn evaluate_logical(&mut self, expr: &'a Expr, e: &'a ExprLogical, fuel: u64) -> (r: Result<
        Evaluation<'a>,
        InterpretError<'a>,
    >)
        requires
            old(self)@.environment.well_formed(),
            *expr == Expr::Logical(*e),
            fuel > 0,
        ensures
            (final(self)@, evaluation_view(r)) == semantics::evaluate(
                old(self)@,
                expr@,
                fuel as nat,
            ),
            final(self)@.extends(old(self)@),
            final(self).budget == old(self).budget,
        decreases fuel, 0nat,
    {
        let left = match self.evaluate(&e.left, fuel - 1) {
            Ok(v) => v,
            Err(err) => {
                return Err(err);
            },
        };
        if let Evaluation::Boolean(b) = left {
            if (e.operator.token_type == TokenType::Or && b) || (e.operator.token_type
                == TokenType::And && !b) {
                return Ok(left);
            }
        }
        self.evaluate(&e.right, fuel - 1)
    }

    /// Evaluates a unary operation.
    fn evaluate_negation(&mut self, expr: &'a Expr, e: &'a ExprUnary, fuel: u64) -> (r: Result<
        Evaluation<'a>,
        InterpretError<'a>,
    >)
        requires
            old(self)@.environment.well_formed(),
            *expr == Expr::Unary(*e),
            fuel > 0,
        ensures
            (final(self)@, evaluation_view(r)) == semantics::evaluate(
                old(self)@,
                expr@,
                fuel as nat,
            ),
            final(self)@.extends(old(self)@),
            final(self).budget == old(self).budget,
        decreases fuel, 0nat,
    {
        let right = match self.evaluate(&e.right, fuel - 1) {
            Ok(v) => v,
            Err(err) => {
                return Err(err);
            },
        };
        Self::evaluate_unary(right, e.operator.token_type)
    }

    /// Evaluates a binary operation: the left operand, then the right one,
    /// then the operator.
    fn evaluate_operation(&mut self, expr: &'a Expr, e: &'a ExprBinary, fuel: u64) -> (r: Result<
        Evaluation<'a>,
        InterpretError<'a>,
    >)
        requires
            old(self)@.environment.well_formed(),
            *expr == Expr::Binary(*e),
            fuel > 0,
        ensures
            (final(self)@, evaluation_view(r)) == semantics::evaluate(
                old(self)@,
                expr@,
                fuel as nat,
            ),
            final(self)@.extends(old(self)@),
            final(self).budget == old(self).budget,
        decreases fuel, 0nat,
    {
        let left = match self.evaluate(&e.left, fuel - 1) {
            Ok(v) => v,
            Err(err) => {
                return Err(err);
            },
        };
        let right = match self.evaluate(&e.right, fuel - 1) {
            Ok(v) => v,
            Err(err) => {
                return Err(err);
            },
        };
        Self::evaluate_binary(left, right, e.operator.token_type)
    }

    /// Calls a value with arguments: checks that it is callable, calls it,
    /// and turns a call that returned nothing into nil.
    fn invoke(&mut self, callee: Evaluation<'a>, arguments: &Vec<Evaluation<'a>>, fuel: u64) -> (r:
        Result<Evaluation<'a>, InterpretError<'a>>)
        requires
            old(self)@.environment.well_formed(),
        ensures
            (final(self)@, evaluation_view(r)) == semantics::invoke(
                old(self)@,
                callee@,
                value_views(arguments@),
                fuel as nat,
            ),
            final(self)@.extends(old(self)@),
            final(self).budget == old(self).budget,
        decreases fuel, 2nat,
    {
        match &callee {
            Evaluation::Callable(function) => {
                match function.call(self, arguments, fuel) {
                    Ok(Some(v)) => Ok(v),
                    Ok(None) => Ok(Evaluation::Nil),
                    Err(e) => Err(e),
                }
            },
            _ => Err(cast_error("Callable", &callee)),
        }
    }

    /// Applies a unary operator to its operand.
    pub fn evaluate_unary(right: Evaluation<'a>, operator_type: TokenType) -> (r: Result<
        Evaluation<'a>,
        InterpretError<'a>,
    >)
        ensures
            evaluation_view(r) == semantics::unary(operator_type, right@),
    {
        match (&right, operator_type) {
            (Evaluation::Number(n), TokenType::Minus) => Ok(Evaluation::Number(n.negated())),
            (Evaluation::Boolean(b), TokenType::Bang) => Ok(Evaluation::Boolean(!*b)),
            (Evaluation::Nil, TokenType::Bang) => Ok(Evaluation::Boolean(true)),
            _ => Err(InterpretError::EvaluateUnaryFail { right_evaluation: right, operator_type }),
        }
    }

    /// Applies a binary operator to its operands.
    pub fn evaluate_binary(
        left: Evaluation<'a>,
        right: Evaluation<'a>,
        operator_type: TokenType,
    ) -> (r: Result<Evaluation<'a>, InterpretError<'a>>)
        ensures
            evaluation_view(r) == semantics::binary(left@, operator_type, right@),
    {
        match operator_type {
            TokenType::Plus => left.add(right),
            TokenType::BangEqual => Ok(Evaluation::Boolean(!(left == right))),
            TokenType::EqualEqual => Ok(Evaluation::Boolean(left == right)),
            _ => match (&left, &right) {
                (Evaluation::Number(a), Evaluation::Number(b)) => {
                    let a = *a;
                    let b = *b;
                    match operator_type {
                        TokenType::Minus => Ok(Evaluation::Number(a.minus(b))),
                        TokenType::Star => Ok(Evaluation::Number(a.times(b))),
                        TokenType::Slash => match a.over(b) {
                            Some(n) => Ok(Evaluation::Number(n)),
                            None => Err(runtime_error("Division by zero.")),
                        },
                        TokenType::Greater => Ok(Evaluation::Boolean(b.less(a))),
                        TokenType::GreaterEqual => Ok(Evaluation::Boolean(b.less_equal(a))),
                        TokenType::Less => Ok(Evaluation::Boolean(a.less(b))),
                        TokenType::LessEqual => Ok(Evaluation::Boolean(a.less_equal(b))),
                        _ => Err(Self::binary_fail(left, operator_type, right)),
                    }
                },
                _ => Err(Self::binary_fail(left, operator_type, right)),
            },
        }
    }

    /// The error for a binary operator on operands that it does not take.
    pub fn binary_fail(left: Evaluation<'a>, operator_type: TokenType, right: Evaluation<'a>) -> (r:
        InterpretError<'a>)
        ensures
            r@ == semantics::binary_fail(left@, operator_type, right@),
    {
        InterpretError::EvaluateBinaryFail {
            left_evaluation: left,
            operator_type,
            right_evaluation: right,
        }
    }
}

} // verus!
