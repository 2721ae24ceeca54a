//! The meaning of programs: what evaluating an expression or executing a
//! statement yields, as functions of the syntax tree, the state before and
//! a budget.
//!
//! The budget bounds how deep evaluation nests and how often a loop runs:
//! each nested evaluation and each turn of a loop gets one less than what
//! contains it, and evaluation with no budget left fails.

use vstd::prelude::*;
use crate::environment::EnvironmentView;
use crate::errors::InterpretErrorView;
use crate::expr::ExprView;
use crate::number::{decimal_digits, Number};
use crate::stmt::StmtView;
use crate::token::{TokenType, TokenView};
use crate::value::{CallableView, EvaluationView, Native};

verus! {

/// What a run has built up: the scopes, the lines printed so far and the
/// host's clock reading.
pub struct InterpreterView {
    pub environment: EnvironmentView,
    pub output: Seq<Seq<char>>,
    pub clock: u64,
}

impl InterpreterView {
    /// The state with another environment.
    pub open spec fn with_environment(self, environment: EnvironmentView) -> Self {
        InterpreterView { environment, ..self }
    }

    /// The state with one more line printed.
    pub open spec fn printed(self, line: Seq<char>) -> Self {
        InterpreterView { output: self.output.push(line), ..self }
    }

    /// The state with `name` bound in the innermost scope.
    pub open spec fn define(self, name: Seq<char>, value: Option<EvaluationView>) -> Self {
        self.with_environment(self.environment.define(name, value))
    }

    /// The state once the innermost scope is left for the scope
    /// `previous`.
    pub open spec fn leave(self, previous: int) -> Self {
        self.with_environment(self.environment.leave(previous))
    }

    /// Whether this state can follow `before`: its environment is well
    /// formed and has lost no scope.
    pub open spec fn extends(self, before: InterpreterView) -> bool {
        &&& self.environment.well_formed()
        &&& self.environment.scopes.len() >= before.environment.scopes.len()
    }
}

/// What evaluating an expression yields.
pub type Evaluated = (InterpreterView, Result<EvaluationView, InterpretErrorView>);

/// What executing a statement yields: `Some` value where a `return` fired.
pub type Executed = (InterpreterView, Result<Option<EvaluationView>, InterpretErrorView>);

/// What evaluating a list of arguments yields.
pub type EvaluatedAll = (InterpreterView, Result<Seq<EvaluationView>, InterpretErrorView>);

/// The error with the given message.
pub open spec fn runtime_error(message: Seq<char>) -> InterpretErrorView {
    InterpretErrorView::RuntimeError { err: message }
}

/// The message of the error for an exhausted budget.
pub open spec fn budget_message() -> Seq<char> {
    "Evaluation budget exhausted."@
}

/// The message of the error for a division by zero.
pub open spec fn division_message() -> Seq<char> {
    "Division by zero."@
}

/// The message of the error for a function whose scope does not exist.
pub open spec fn scope_message() -> Seq<char> {
    "Function scope does not exist."@
}

/// The message of the error for a call with the wrong number of
/// arguments: it names the number expected and the number given.
pub open spec fn arity_message(arity: nat, given: nat) -> Seq<char> {
    "Expected '"@ + decimal_digits(arity) + "' arguments but got '"@ + decimal_digits(given)
        + "'"@
}

/// The error for a value that is not of the kind `expect`.
pub open spec fn cast_error(expect: Seq<char>, actual: EvaluationView) -> InterpretErrorView {
    InterpretErrorView::CastError { expect, actual: actual.rendering() }
}

/// The result of a unary operator: `-` negates a number, whatever the
/// number, `!` inverts a boolean and makes nil true; anything else is an
/// error.
pub open spec fn unary(operator: TokenType, right: EvaluationView) -> Result<
    EvaluationView,
    InterpretErrorView,
> {
    match (right, operator) {
        (EvaluationView::Number(n), TokenType::Minus) => Ok(EvaluationView::Number(n.negation())),
        (EvaluationView::Boolean(b), TokenType::Bang) => Ok(EvaluationView::Boolean(!b)),
        (EvaluationView::Nil, TokenType::Bang) => Ok(EvaluationView::Boolean(true)),
        _ => Err(
            InterpretErrorView::EvaluateUnaryFail {
                right_evaluation: right,
                operator_type: operator,
            },
        ),
    }
}

/// The error for a binary operator on operands that it does not take.
pub open spec fn binary_fail(
    left: EvaluationView,
    operator: TokenType,
    right: EvaluationView,
) -> InterpretErrorView {
    InterpretErrorView::EvaluateBinaryFail {
        left_evaluation: left,
        operator_type: operator,
        right_evaluation: right,
    }
}

/// The result of `-`, `*`, `/` or a comparison on two numbers: always a
/// value, but for division by zero.
pub open spec fn arithmetic(left: Number, operator: TokenType, right: Number) -> Result<
    EvaluationView,
    InterpretErrorView,
> {
    match operator {
        TokenType::Minus => Ok(EvaluationView::Number(left.difference(right))),
        TokenType::Star => Ok(EvaluationView::Number(left.product(right))),
        TokenType::Slash => match left.quotient(right) {
            Some(n) => Ok(EvaluationView::Number(n)),
            None => Err(runtime_error(division_message())),
        },
        TokenType::Greater => Ok(EvaluationView::Boolean(right.below(left))),
        TokenType::GreaterEqual => Ok(EvaluationView::Boolean(!left.below(right))),
        TokenType::Less => Ok(EvaluationView::Boolean(left.below(right))),
        TokenType::LessEqual => Ok(EvaluationView::Boolean(!right.below(left))),
        _ => Err(binary_fail(EvaluationView::Number(left), operator, EvaluationView::Number(right))),
    }
}

/// The result of `+`: two texts are joined, two numbers are added, and
/// any other pair of operands is an error. Two texts and two numbers
/// always have a sum.
pub open spec fn addition(left: EvaluationView, right: EvaluationView) -> Result<
    EvaluationView,
    InterpretErrorView,
> {
    match (left, right) {
        (EvaluationView::Text(a), EvaluationView::Text(b)) => Ok(EvaluationView::Text(a + b)),
        (EvaluationView::Number(a), EvaluationView::Number(b)) => Ok(EvaluationView::Number(a.sum(b))),
        _ => Err(InterpretErrorView::EvaluationAddOverloaderError { lhs: left, rhs: right }),
    }
}

/// The result of a binary operator. `==` and `!=` take any operands and
/// never fail; `-`, `*`, `/` and the comparisons take two numbers.
pub open spec fn binary(left: EvaluationView, operator: TokenType, right: EvaluationView) -> Result<
    EvaluationView,
    InterpretErrorView,
> {
    match operator {
        TokenType::Plus => addition(left, right),
        TokenType::BangEqual => Ok(EvaluationView::Boolean(!left.equals(right))),
        TokenType::EqualEqual => Ok(EvaluationView::Boolean(left.equals(right))),
        _ => match (left, right) {
            (EvaluationView::Number(a), EvaluationView::Number(b)) => arithmetic(a, operator, b),
            _ => Err(binary_fail(left, operator, right)),
        },
    }
}

/// Whether the left operand of `and` or `or` decides the result: `true`
/// does for `or` and `false` for `and`. A left operand that is no boolean
/// decides nothing.
pub open spec fn short_circuits(operator: TokenType, left: EvaluationView) -> bool {
    match left {
        EvaluationView::Boolean(b) => (operator == TokenType::Or && b) || (operator
            == TokenType::And && !b),
        _ => false,
    }
}

/// The truth of a condition: that of a boolean; any other value is an
/// error.
pub open spec fn truth(value: EvaluationView) -> Result<bool, InterpretErrorView> {
    match value {
        EvaluationView::Boolean(b) => Ok(b),
        _ => Err(cast_error("Boolean"@, value)),
    }
}

/// What a host function yields.
pub open spec fn native(fun: Native, state: InterpreterView) -> Result<
    Option<EvaluationView>,
    InterpretErrorView,
> {
    match fun {
        Native::Clock => Ok(Some(EvaluationView::Number(Number::whole(state.clock)))),
    }
}

/// The environment with each parameter from `from` on bound, in the
/// innermost scope, to the argument in its place.
pub open spec fn bind(
    environment: EnvironmentView,
    params: Seq<TokenView>,
    arguments: Seq<EvaluationView>,
    from: int,
) -> EnvironmentView
    decreases params.len() - from,
{
    if 0 <= from < params.len() && from < arguments.len() {
        bind(
            environment.define(params[from].lexeme, Some(arguments[from])),
            params,
            arguments,
            from + 1,
        )
    } else {
        environment
    }
}

/// The value of a call from what executing the body yielded: the value of
/// the `return` that fired, or nil.
pub open spec fn returned(result: Result<Option<EvaluationView>, InterpretErrorView>) -> Result<
    EvaluationView,
    InterpretErrorView,
> {
    match result {
        Ok(Some(v)) => Ok(v),
        Ok(None) => Ok(EvaluationView::Nil),
        Err(e) => Err(e),
    }
}

/// What evaluating the expression `expr` in `state` yields.
pub open spec fn evaluate(state: InterpreterView, expr: ExprView, fuel: nat) -> Evaluated
    decreases fuel, 0nat,
{
    if fuel == 0 {
        (state, Err(runtime_error(budget_message())))
    } else {
        let less = (fuel - 1) as nat;
        match expr {
            ExprView::Literal { literal } => (state, Ok(EvaluationView::of_literal(literal))),
            ExprView::Grouping { expr } => evaluate(state, *expr, less),
            ExprView::Var { name } => (
                state,
                match state.environment.lookup(name.lexeme) {
                    Some(v) => Ok(v),
                    None => Err(InterpretErrorView::UndefinedVariable { lexeme: name.lexeme }),
                },
            ),
            ExprView::Assign { name, value } => {
                let (after, result) = evaluate(state, *value, less);
                match result {
                    Ok(v) => match after.environment.assign(name.lexeme, v) {
                        Some(environment) => (after.with_environment(environment), Ok(v)),
                        None => (
                            after,
                            Err(InterpretErrorView::UndefinedVariable { lexeme: name.lexeme }),
                        ),
                    },
                    Err(e) => (after, Err(e)),
                }
            },
            ExprView::Logical { left, operator, right } => {
                let (after, result) = evaluate(state, *left, less);
                match result {
                    Ok(v) => if short_circuits(operator.token_type, v) {
                        (after, Ok(v))
                    } else {
                        evaluate(after, *right, less)
                    },
                    Err(e) => (after, Err(e)),
                }
            },
            ExprView::Unary { operator, right } => {
                let (after, result) = evaluate(state, *right, less);
                match result {
                    Ok(v) => (after, unary(operator.token_type, v)),
                    Err(e) => (after, Err(e)),
                }
            },
            ExprView::Binary { left, operator, right } => {
                let (middle, first) = evaluate(state, *left, less);
                match first {
                    Ok(l) => {
                        let (after, second) = evaluate(middle, *right, less);
                        match second {
                            Ok(r) => (after, binary(l, operator.token_type, r)),
                            Err(e) => (after, Err(e)),
                        }
                    },
                    Err(e) => (middle, Err(e)),
                }
            },
            ExprView::Call { callee, paren, arguments } => {
                let (middle, first) = evaluate(state, *callee, less);
                match first {
                    Ok(f) => {
                        let (after, second) = evaluate_arguments(
                            middle,
                            arguments,
                            0,
                            Seq::empty(),
                            less,
                        );
                        match second {
                            Ok(values) => invoke(after, f, values, less),
                            Err(e) => (after, Err(e)),
                        }
                    },
                    Err(e) => (middle, Err(e)),
                }
            },
        }
    }
}

/// What evaluating the arguments from `from` on, left to right, yields,
/// `values` being the values of those before.
pub open spec fn evaluate_arguments(
    state: InterpreterView,
    arguments: Seq<ExprView>,
    from: int,
    values: Seq<EvaluationView>,
    fuel: nat,
) -> EvaluatedAll
    decreases fuel, arguments.len() - from + 1,
{
    if 0 <= from < arguments.len() {
        let (after, result) = evaluate(state, arguments[from], fuel);
        match result {
            Ok(v) => evaluate_arguments(after, arguments, from + 1, values.push(v), fuel),
            Err(e) => (after, Err(e)),
        }
    } else {
        (state, Ok(values))
    }
}

/// What calling the value `callee` with `arguments` yields: an error where
/// the value is not callable, and otherwise what the call yields, with nil
/// for a call that returned nothing.
pub open spec fn invoke(
    state: InterpreterView,
    callee: EvaluationView,
    arguments: Seq<EvaluationView>,
    fuel: nat,
) -> Evaluated
    decreases fuel, 1nat,
{
    match callee {
        EvaluationView::Callable(f) => {
            let (after, result) = call(state, f, arguments, fuel);
            (after, returned(result))
        },
        _ => (state, Err(cast_error("Callable"@, callee))),
    }
}

/// What calling `function` with `arguments` yields. With another number
/// of arguments than the function takes the call fails, and the error
/// names both numbers. A declared function runs its body in a new scope
/// enclosed by the scope it was declared in, with each parameter bound to
/// its argument; after the call that scope is left, and the scope that was
/// innermost before is innermost again.
pub open spec fn call(
    state: InterpreterView,
    function: CallableView,
    arguments: Seq<EvaluationView>,
    fuel: nat,
) -> Executed
    decreases fuel, 0nat,
{
    if arguments.len() != function.arity() {
        (state, Err(runtime_error(arity_message(function.arity(), arguments.len()))))
    } else {
        match function {
            CallableView::Native(f) => (state, native(f.fun, state)),
            CallableView::User { declaration, closure } => if closure
                >= state.environment.scopes.len() {
                (state, Err(runtime_error(scope_message())))
            } else if fuel == 0 {
                (state, Err(runtime_error(budget_message())))
            } else {
                let entered = state.with_environment(
                    bind(state.environment.enter(closure), declaration.params, arguments, 0),
                );
                let (after, result) = execute_all(
                    entered,
                    declaration.body,
                    0,
                    (fuel - 1) as nat,
                );
                (after.leave(state.environment.current), result)
            },
        }
    }
}

/// What executing the statement `stmt` in `state` yields.
pub open spec fn execute(state: InterpreterView, stmt: StmtView, fuel: nat) -> Executed
    decreases fuel, 0nat,
{
    if fuel == 0 {
        (state, Err(runtime_error(budget_message())))
    } else {
        let less = (fuel - 1) as nat;
        match stmt {
            StmtView::Expression { expr } => {
                let (after, result) = evaluate(state, expr, less);
                match result {
                    Ok(_) => (after, Ok(None)),
                    Err(e) => (after, Err(e)),
                }
            },
            StmtView::Print { expr } => {
                let (after, result) = evaluate(state, expr, less);
                match result {
                    Ok(v) => (after.printed(v.rendering()), Ok(None)),
                    Err(e) => (after, Err(e)),
                }
            },
            StmtView::Var { name, initializer } => match initializer {
                Some(expr) => {
                    let (after, result) = evaluate(state, expr, less);
                    match result {
                        Ok(v) => (after.define(name.lexeme, Some(v)), Ok(None)),
                        Err(e) => (after, Err(e)),
                    }
                },
                None => (state.define(name.lexeme, None), Ok(None)),
            },
            StmtView::Block { statements } => execute_block(
                state,
                statements,
                state.environment.current as usize,
                less,
            ),
            StmtView::If { condition, then_branch, else_branch } => {
                let (after, result) = evaluate(state, condition, less);
                match result {
                    Ok(v) => match truth(v) {
                        Ok(true) => execute(after, *then_branch, less),
                        Ok(false) => match else_branch {
                            Some(branch) => execute(after, *branch, less),
                            None => (after, Ok(None)),
                        },
                        Err(e) => (after, Err(e)),
                    },
                    Err(e) => (after, Err(e)),
                }
            },
            StmtView::While { condition, body } => {
                let (middle, result) = evaluate(state, condition, less);
                match result {
                    Ok(v) => match truth(v) {
                        Ok(true) => {
                            let (after, turn) = execute(middle, *body, less);
                            match turn {
                                Ok(None) => execute(after, stmt, less),
                                _ => (after, turn),
                            }
                        },
                        Ok(false) => (middle, Ok(None)),
                        Err(e) => (middle, Err(e)),
                    },
                    Err(e) => (middle, Err(e)),
                }
            },
            StmtView::Function { declaration } => (
                state.with_environment(state.environment.capture()).define(
                    declaration.name.lexeme,
                    Some(
                        EvaluationView::Callable(
                            CallableView::User {
                                declaration,
                                closure: state.environment.current as usize,
                            },
                        ),
                    ),
                ),
                Ok(None),
            ),
            StmtView::Return { keyword, value } => match value {
                Some(expr) => {
                    let (after, result) = evaluate(state, expr, less);
                    match result {
                        Ok(v) => (after, Ok(Some(v))),
                        Err(e) => (after, Err(e)),
                    }
                },
                None => (state, Ok(Some(EvaluationView::Nil))),
            },
        }
    }
}

/// What executing `statements` in a new scope enclosed by the scope
/// `enclosing` yields. However the statements end, the new scope is left
/// and the scope that was innermost before is innermost again.
pub open spec fn execute_block(
    state: InterpreterView,
    statements: Seq<StmtView>,
    enclosing: usize,
    fuel: nat,
) -> Executed
    decreases fuel, statements.len() + 2,
{
    let entered = state.with_environment(state.environment.enter(enclosing));
    let (after, result) = execute_all(entered, statements, 0, fuel);
    (after.leave(state.environment.current), result)
}

/// What executing the statements from `from` on, in order, yields: the
/// first error or fired `return` ends it.
pub open spec fn execute_all(
    state: InterpreterView,
    statements: Seq<StmtView>,
    from: int,
    fuel: nat,
) -> Executed
    decreases fuel, statements.len() - from + 1,
{
    if 0 <= from < statements.len() {
        let (after, result) = execute(state, statements[from], fuel);
        match result {
            Ok(None) => execute_all(after, statements, from + 1, fuel),
            _ => (after, result),
        }
    } else {
        (state, Ok(None))
    }
}

/// What running the top-level statements from `from` on yields, each with
/// the whole budget: the first error ends the run.
pub open spec fn interpret(
    state: InterpreterView,
    statements: Seq<StmtView>,
    from: int,
    budget: nat,
) -> (InterpreterView, Result<(), InterpretErrorView>)
    decreases statements.len() - from,
{
    if 0 <= from < statements.len() {
        let (after, result) = execute(state, statements[from], budget);
        match result {
            Ok(_) => interpret(after, statements, from + 1, budget),
            Err(e) => (after, Err(e)),
        }
    } else {
        (state, Ok(()))
    }
}

} // verus!
