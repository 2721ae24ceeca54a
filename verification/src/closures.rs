//! The law of shared bindings at work: what calling a counter, a function
//! that adds to a variable of the scope it was declared in and returns
//! it, yields.

use vstd::prelude::*;
use crate::environment::EnvironmentView;
use crate::errors::InterpretErrorView;
use crate::expr::ExprView;
use crate::laws::{lemma_assignment_writes_to_owner, lemma_owner_has_name};
use crate::number::Number;
use crate::semantics::{binary, call, evaluate, execute, execute_all, InterpreterView};
use crate::stmt::{FunctionView, StmtView};
use crate::token::{LiteralView, TokenType, TokenView};
use crate::value::{CallableView, EvaluationView};

verus! {

/// The expression `variable + step`.
pub open spec fn increased(variable: TokenView, plus: TokenView, step: Number) -> ExprView {
    ExprView::Binary {
        left: Box::new(ExprView::Var { name: variable }),
        operator: plus,
        right: Box::new(ExprView::Literal { literal: LiteralView::Number(step) }),
    }
}

/// The statement `variable = variable + step;`.
pub open spec fn increase(variable: TokenView, plus: TokenView, step: Number) -> StmtView {
    StmtView::Expression {
        expr: ExprView::Assign {
            name: variable,
            value: Box::new(increased(variable, plus, step)),
        },
    }
}

/// The function `fun name() { variable = variable + step; return
/// variable; }`, where `plus` is the token of the `+` and `keyword` that
/// of the `return`.
pub open spec fn counter(
    name: TokenView,
    variable: TokenView,
    plus: TokenView,
    step: Number,
    keyword: TokenView,
) -> FunctionView {
    FunctionView {
        name,
        params: Seq::empty(),
        body: seq![
            increase(variable, plus, step),
            StmtView::Return { keyword, value: Some(ExprView::Var { name: variable }) },
        ],
    }
}

/// Reading a name yields what the nearest scope that has the name binds
/// it to.
pub proof fn lemma_lookup_reads_owner(environment: EnvironmentView, id: int, name: Seq<char>)
    ensures
        environment.owner_from(id, name) matches Some(owner) ==> environment.lookup_from(id, name)
            == environment.scopes[owner].bindings[name],
    decreases id,
{
    if 0 <= id < environment.scopes.len() && !environment.scopes[id].bindings.dom().contains(name) {
        match environment.scopes[id].enclosing {
            Some(p) => {
                if p < id {
                    lemma_lookup_reads_owner(environment, p as int, name);
                }
            },
            None => {},
        }
    }
}

/// Which scope owns a name, as seen from a scope, depends on the scopes
/// up to that scope alone.
pub proof fn lemma_owner_in_older_scopes(
    first: EnvironmentView,
    second: EnvironmentView,
    id: int,
    name: Seq<char>,
)
    requires
        id < first.scopes.len(),
        id < second.scopes.len(),
        forall|i: int| 0 <= i <= id ==> first.scopes[i] == second.scopes[i],
    ensures
        first.owner_from(id, name) == second.owner_from(id, name),
    decreases id,
{
    if 0 <= id && !first.scopes[id].bindings.dom().contains(name) {
        match first.scopes[id].enclosing {
            Some(p) => {
                if p < id {
                    lemma_owner_in_older_scopes(first, second, p as int, name);
                }
            },
            None => {},
        }
    }
}

/// A call of a counter adds its step to the variable in the scope that
/// owns the variable as seen from the scope the counter was declared in,
/// returns the sum, and changes nothing else: the scope of the call is
/// gone, and the variable has the sum for every later call and for every
/// other function that sees the same binding.
pub proof fn lemma_counter_call(
    state: InterpreterView,
    name: TokenView,
    variable: TokenView,
    plus: TokenView,
    step: Number,
    keyword: TokenView,
    closure: usize,
    owner: int,
    n: Number,
    fuel: nat,
)
    requires
        state.environment.has_current(),
        closure < state.environment.scopes.len(),
        plus.token_type == TokenType::Plus,
        state.environment.owner_from(closure as int, variable.lexeme) == Some(owner),
        state.environment.scopes[owner].bindings[variable.lexeme] == Some(
            EvaluationView::Number(n),
        ),
        fuel >= 5,
    ensures
        call(
            state,
            CallableView::User {
                declaration: counter(name, variable, plus, step, keyword),
                closure,
            },
            Seq::empty(),
            fuel,
        ) == (
            state.with_environment(
                state.environment.written(
                    owner,
                    variable.lexeme,
                    EvaluationView::Number(n.sum(step)),
                ),
            ),
            Ok::<Option<EvaluationView>, InterpretErrorView>(
                Some(EvaluationView::Number(n.sum(step))),
            ),
        ),
{
    let declaration = counter(name, variable, plus, step, keyword);
    let c = variable.lexeme;
    let old_value = EvaluationView::Number(n);
    let new_value = EvaluationView::Number(n.sum(step));
    let before = state.environment;
    let scope = before.scopes.len() as int;
    let opened = before.enter(closure);
    let entered = state.with_environment(opened);
    let written = opened.written(owner, c, new_value);
    let after = state.with_environment(written);

    lemma_owner_has_name(before, closure as int, c);
    lemma_assignment_writes_to_owner(before, closure as int, c, new_value);
    assert(0 <= owner <= closure);

    // The variable as seen from the scope of the call.
    assert forall|i: int| 0 <= i <= closure implies opened.scopes[i] == before.scopes[i] by {}
    lemma_owner_in_older_scopes(opened, before, closure as int, c);
    assert(opened.owner_from(scope, c) == Some(owner));
    lemma_lookup_reads_owner(opened, scope, c);
    assert(opened.lookup(c) == Some(old_value));
    lemma_assignment_writes_to_owner(opened, scope, c, new_value);
    assert(opened.assign(c, new_value) == Some(written));

    // `variable = variable + step;`
    let read = ExprView::Var { name: variable };
    let one = ExprView::Literal { literal: LiteralView::Number(step) };
    let sum = increased(variable, plus, step);
    let assignment = ExprView::Assign { name: variable, value: Box::new(sum) };
    assert(evaluate(entered, read, (fuel - 4) as nat) == (
        entered,
        Ok::<EvaluationView, InterpretErrorView>(old_value),
    ));
    assert(evaluate(entered, one, (fuel - 4) as nat) == (
        entered,
        Ok::<EvaluationView, InterpretErrorView>(EvaluationView::Number(step)),
    ));
    assert(binary(old_value, plus.token_type, EvaluationView::Number(step)) == Ok::<
        EvaluationView,
        InterpretErrorView,
    >(new_value));
    assert(evaluate(entered, sum, (fuel - 3) as nat) == (
        entered,
        Ok::<EvaluationView, InterpretErrorView>(new_value),
    ));
    assert(evaluate(entered, assignment, (fuel - 2) as nat) == (
        after,
        Ok::<EvaluationView, InterpretErrorView>(new_value),
    ));
    assert(execute(entered, declaration.body[0], (fuel - 1) as nat) == (
        after,
        Ok::<Option<EvaluationView>, InterpretErrorView>(None),
    ));

    // `return variable;`
    assert forall|i: int| 0 <= i <= scope && i != owner implies written.scopes[i]
        == opened.scopes[i] by {}
    lemma_written_is_read(opened, owner, scope, c, new_value);
    assert(written.lookup(c) == Some(new_value));
    assert(evaluate(after, read, (fuel - 2) as nat) == (
        after,
        Ok::<EvaluationView, InterpretErrorView>(new_value),
    ));
    assert(execute(after, declaration.body[1], (fuel - 1) as nat) == (
        after,
        Ok::<Option<EvaluationView>, InterpretErrorView>(Some(new_value)),
    ));
    assert(execute_all(after, declaration.body, 1, (fuel - 1) as nat) == (
        after,
        Ok::<Option<EvaluationView>, InterpretErrorView>(Some(new_value)),
    ));
    assert(execute_all(entered, declaration.body, 0, (fuel - 1) as nat) == (
        after,
        Ok::<Option<EvaluationView>, InterpretErrorView>(Some(new_value)),
    ));

    // The scope of the call is left and discarded.
    assert(crate::semantics::bind(opened, declaration.params, Seq::empty(), 0) == opened);
    assert(written.scopes.drop_last() =~= before.written(owner, c, new_value).scopes);
    assert(written.leave(before.current) == before.written(owner, c, new_value));
}

/// What was written to the scope that owns a name is what reading the
/// name yields from every scope that sees that binding.
pub proof fn lemma_written_is_read(
    environment: EnvironmentView,
    owner: int,
    reader: int,
    name: Seq<char>,
    value: EvaluationView,
)
    requires
        environment.owner_from(reader, name) == Some(owner),
    ensures
        environment.written(owner, name, value).lookup_from(reader, name) == Some(value),
{
    crate::laws::lemma_read_after_write(environment, owner, reader, name, value);
}

/// Calls of a counter add up: after a call, a further call returns the
/// sum of the first call and the step, and leaves that in the variable.
pub proof fn lemma_counter_counts(
    state: InterpreterView,
    name: TokenView,
    variable: TokenView,
    plus: TokenView,
    step: Number,
    keyword: TokenView,
    closure: usize,
    owner: int,
    n: Number,
    fuel: nat,
)
    requires
        state.environment.has_current(),
        closure < state.environment.scopes.len(),
        plus.token_type == TokenType::Plus,
        state.environment.owner_from(closure as int, variable.lexeme) == Some(owner),
        state.environment.scopes[owner].bindings[variable.lexeme] == Some(
            EvaluationView::Number(n),
        ),
        fuel >= 5,
    ensures
        ({
            let function = CallableView::User {
                declaration: counter(name, variable, plus, step, keyword),
                closure,
            };
            let first = call(state, function, Seq::empty(), fuel);
            let second = call(first.0, function, Seq::empty(), fuel);
            &&& first.1 == Ok::<Option<EvaluationView>, InterpretErrorView>(
                Some(EvaluationView::Number(n.sum(step))),
            )
            &&& second.1 == Ok::<Option<EvaluationView>, InterpretErrorView>(
                Some(EvaluationView::Number(n.sum(step).sum(step))),
            )
            &&& second.0.environment.lookup_from(closure as int, variable.lexeme) == Some(
                EvaluationView::Number(n.sum(step).sum(step)),
            )
        }),
{
    let c = variable.lexeme;
    let once = EvaluationView::Number(n.sum(step));
    let twice = EvaluationView::Number(n.sum(step).sum(step));
    let before = state.environment;
    lemma_counter_call(state, name, variable, plus, step, keyword, closure, owner, n, fuel);
    lemma_owner_has_name(before, closure as int, c);
    lemma_assignment_writes_to_owner(before, closure as int, c, once);
    let middle = before.written(owner, c, once);
    lemma_owner_kept_by_writing(before, owner, c, once, closure as int, c);
    lemma_counter_call(
        state.with_environment(middle),
        name,
        variable,
        plus,
        step,
        keyword,
        closure,
        owner,
        n.sum(step),
        fuel,
    );
    lemma_written_is_read(middle, owner, closure as int, c, twice);
}

/// Writing a value to a name in a scope that has the name changes the
/// owner of no name.
pub proof fn lemma_owner_kept_by_writing(
    environment: EnvironmentView,
    owner: int,
    name: Seq<char>,
    value: EvaluationView,
    id: int,
    other: Seq<char>,
)
    requires
        0 <= owner < environment.scopes.len(),
        environment.scopes[owner].bindings.dom().contains(name),
    ensures
        environment.written(owner, name, value).owner_from(id, other) == environment.owner_from(
            id,
            other,
        ),
    decreases id,
{
    let after = environment.written(owner, name, value);
    if 0 <= id < environment.scopes.len() {
        if id != owner {
            assert(after.scopes[id] == environment.scopes[id]);
        }
        assert(after.scopes[id].enclosing == environment.scopes[id].enclosing);
        assert(after.scopes[id].bindings.dom().contains(other)
            == environment.scopes[id].bindings.dom().contains(other));
        match environment.scopes[id].enclosing {
            Some(p) => {
                if p < id {
                    lemma_owner_kept_by_writing(environment, owner, name, value, p as int, other);
                }
            },
            None => {},
        }
    }
}

} // verus!
