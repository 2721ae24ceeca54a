//! Laws of evaluation that hold of every program and every state.

use vstd::prelude::*;
use crate::environment::{EnvironmentView, ScopeView};
use crate::errors::InterpretErrorView;
use crate::expr::ExprView;
use crate::semantics::{
    addition,
    arity_message,
    binary,
    unary,
    evaluate,
    evaluate_arguments,
    invoke,
    runtime_error,
    short_circuits,
    InterpreterView,
};
use crate::number::Number;
use crate::semantics::{bind, call, execute, execute_all, execute_block, truth};
use crate::stmt::StmtView;
use crate::token::{LiteralView, TokenType, TokenView};
use crate::value::{CallableView, EvaluationView};

verus! {

impl EnvironmentView {
    /// Whether the scope `id` or a scope around it has the name `name`.
    pub open spec fn has_from(self, id: int, name: Seq<char>) -> bool
        decreases id,
    {
        if 0 <= id < self.scopes.len() {
            let scope = self.scopes[id];
            scope.bindings.dom().contains(name) || match scope.enclosing {
                Some(p) => p < id && self.has_from(p as int, name),
                None => false,
            }
        } else {
            false
        }
    }

    /// Whether the innermost scope or a scope around it has the name
    /// `name`.
    pub open spec fn has(self, name: Seq<char>) -> bool {
        self.has_from(self.current as int, name)
    }
}

/// A name that no scope from `id` outward has cannot be read and cannot be
/// assigned to; a name that one of them has can be assigned to.
pub proof fn lemma_unbound_name(
    environment: EnvironmentView,
    id: int,
    name: Seq<char>,
    value: EvaluationView,
)
    ensures
        !environment.has_from(id, name) ==> environment.lookup_from(id, name) is None,
        environment.has_from(id, name) <==> environment.assign_from(id, name, value) is Some,
    decreases id,
{
    if 0 <= id < environment.scopes.len() {
        match environment.scopes[id].enclosing {
            Some(p) => {
                if p < id {
                    lemma_unbound_name(environment, p as int, name, value);
                }
            },
            None => {},
        }
    }
}

impl EnvironmentView {
    /// The nearest scope, from the scope `id` outward, that has the name
    /// `name`.
    pub open spec fn owner_from(self, id: int, name: Seq<char>) -> Option<int>
        decreases id,
    {
        if 0 <= id < self.scopes.len() {
            let scope = self.scopes[id];
            if scope.bindings.dom().contains(name) {
                Some(id)
            } else {
                match scope.enclosing {
                    Some(p) => if p < id {
                        self.owner_from(p as int, name)
                    } else {
                        None
                    },
                    None => None,
                }
            }
        } else {
            None
        }
    }

    /// The environment with the name `name` given the value `value` in
    /// the scope `owner`.
    pub open spec fn written(self, owner: int, name: Seq<char>, value: EvaluationView) -> Self {
        let scope = self.scopes[owner];
        EnvironmentView {
            scopes: self.scopes.update(
                owner,
                ScopeView { bindings: scope.bindings.insert(name, Some(value)), ..scope },
            ),
            ..self
        }
    }
}

/// An assignment changes the nearest scope that has the name, at that
/// name, and nothing else.
pub proof fn lemma_assignment_writes_to_owner(
    environment: EnvironmentView,
    id: int,
    name: Seq<char>,
    value: EvaluationView,
)
    ensures
        match environment.owner_from(id, name) {
            Some(owner) => 0 <= owner <= id && owner < environment.scopes.len()
                && environment.assign_from(id, name, value) == Some(
                environment.written(owner, name, value),
            ),
            None => environment.assign_from(id, name, value) is None,
        },
    decreases id,
{
    if 0 <= id < environment.scopes.len() && !environment.scopes[id].bindings.dom().contains(name) {
        match environment.scopes[id].enclosing {
            Some(p) => {
                if p < id {
                    lemma_assignment_writes_to_owner(environment, p as int, name, value);
                }
            },
            None => {},
        }
    }
}

/// A value written to the scope that owns a name is what reading the name
/// yields from every scope for which that scope is the nearest that has
/// the name.
pub proof fn lemma_read_after_write(
    environment: EnvironmentView,
    owner: int,
    reader: int,
    name: Seq<char>,
    value: EvaluationView,
)
    requires
        environment.owner_from(reader, name) == Some(owner),
    ensures
        environment.written(owner, name, value).lookup_from(reader, name) == Some(value),
    decreases reader,
{
    let after = environment.written(owner, name, value);
    if 0 <= reader < environment.scopes.len() {
        if environment.scopes[reader].bindings.dom().contains(name) {
            assert(owner == reader);
        } else {
            match environment.scopes[reader].enclosing {
                Some(p) => {
                    if p < reader {
                        lemma_assignment_writes_to_owner(environment, p as int, name, value);
                        assert(after.scopes[reader] == environment.scopes[reader]);
                        lemma_read_after_write(environment, owner, p as int, name, value);
                    }
                },
                None => {},
            }
        }
    }
}

/// Bindings are shared: where two scopes see the same binding of a name,
/// that is where the nearest scope that has the name is the same for
/// both, a value assigned from the one is the value read from the other.
/// So a function sees what another function, or an earlier call of
/// itself, assigned to a variable of the scope that both were declared
/// in.
pub proof fn lemma_shared_binding(
    environment: EnvironmentView,
    writer: int,
    reader: int,
    name: Seq<char>,
    value: EvaluationView,
)
    requires
        environment.owner_from(writer, name) is Some,
        environment.owner_from(writer, name) == environment.owner_from(reader, name),
    ensures
        environment.assign_from(writer, name, value) matches Some(after) && after.lookup_from(
            reader,
            name,
        ) == Some(value),
{
    let owner = environment.owner_from(writer, name).unwrap();
    lemma_assignment_writes_to_owner(environment, writer, name, value);
    lemma_read_after_write(environment, owner, reader, name, value);
}

/// A name defined in the innermost scope is read from there, whatever the
/// scopes around it bind it to: the inner declaration shadows.
pub proof fn lemma_definition_shadows(
    environment: EnvironmentView,
    name: Seq<char>,
    value: EvaluationView,
)
    requires
        environment.well_formed(),
    ensures
        environment.define(name, Some(value)).lookup(name) == Some(value),
{
}

/// What is defined in a new scope is not seen from the scopes that were
/// there before: once the scope that was innermost is innermost again,
/// every name reads as it did before the new scope was opened.
pub proof fn lemma_new_scope_leaves_older_scopes(
    environment: EnvironmentView,
    enclosing: usize,
    defined: Seq<char>,
    value: Option<EvaluationView>,
    id: int,
    name: Seq<char>,
)
    requires
        0 <= id < environment.scopes.len(),
    ensures
        environment.enter(enclosing).define(defined, value).lookup_from(id, name)
            == environment.lookup_from(id, name),
    decreases id,
{
    let after = environment.enter(enclosing).define(defined, value);
    assert(after.scopes[id] == environment.scopes[id]);
    match environment.scopes[id].enclosing {
        Some(p) => {
            if p < id {
                lemma_new_scope_leaves_older_scopes(
                    environment,
                    enclosing,
                    defined,
                    value,
                    p as int,
                    name,
                );
            }
        },
        None => {},
    }
}

/// Reading a variable whose name no enclosing scope has fails with the
/// error for an undefined variable, and changes nothing.
pub proof fn lemma_undefined_variable_read(state: InterpreterView, name: TokenView, fuel: nat)
    requires
        fuel > 0,
        !state.environment.has(name.lexeme),
    ensures
        evaluate(state, ExprView::Var { name }, fuel) == (
            state,
            Err::<EvaluationView, InterpretErrorView>(
                InterpretErrorView::UndefinedVariable { lexeme: name.lexeme },
            ),
        ),
{
    lemma_unbound_name(
        state.environment,
        state.environment.current as int,
        name.lexeme,
        EvaluationView::Nil,
    );
}

/// Assigning to a variable whose name no enclosing scope has fails with
/// the error for an undefined variable and binds nothing: the state is
/// what evaluating the right-hand side left.
pub proof fn lemma_undefined_variable_assignment(
    state: InterpreterView,
    name: TokenView,
    value: ExprView,
    fuel: nat,
)
    requires
        fuel > 0,
        evaluate(state, value, (fuel - 1) as nat).1 is Ok,
        !evaluate(state, value, (fuel - 1) as nat).0.environment.has(name.lexeme),
    ensures
        evaluate(state, ExprView::Assign { name, value: Box::new(value) }, fuel) == (
            evaluate(state, value, (fuel - 1) as nat).0,
            Err::<EvaluationView, InterpretErrorView>(
                InterpretErrorView::UndefinedVariable { lexeme: name.lexeme },
            ),
        ),
{
    let (after, result) = evaluate(state, value, (fuel - 1) as nat);
    lemma_unbound_name(
        after.environment,
        after.environment.current as int,
        name.lexeme,
        result->Ok_0,
    );
}

/// Where the left operand of `and` is false, or that of `or` is true, the
/// logical expression is worth the left operand and leaves the state that
/// the left operand left, whatever the right operand is: the right
/// operand is not evaluated.
pub proof fn lemma_short_circuit(
    state: InterpreterView,
    left: ExprView,
    operator: TokenView,
    right: ExprView,
    fuel: nat,
)
    requires
        fuel > 0,
        evaluate(state, left, (fuel - 1) as nat).1 matches Ok(v) && short_circuits(
            operator.token_type,
            v,
        ),
    ensures
        evaluate(
            state,
            ExprView::Logical { left: Box::new(left), operator, right: Box::new(right) },
            fuel,
        ) == evaluate(state, left, (fuel - 1) as nat),
{
}

/// `false and e` is false and `true or e` is true for every expression
/// `e`, also one whose evaluation would fail.
pub proof fn lemma_short_circuit_literal(
    state: InterpreterView,
    decided: bool,
    operator: TokenView,
    right: ExprView,
    fuel: nat,
)
    requires
        fuel >= 2,
        (operator.token_type == TokenType::And && !decided) || (operator.token_type
            == TokenType::Or && decided),
    ensures
        evaluate(
            state,
            ExprView::Logical {
                left: Box::new(ExprView::Literal { literal: LiteralView::Boolean(decided) }),
                operator,
                right: Box::new(right),
            },
            fuel,
        ) == (state, Ok::<EvaluationView, InterpretErrorView>(EvaluationView::Boolean(decided))),
{
    let left = ExprView::Literal { literal: LiteralView::Boolean(decided) };
    assert(evaluate(state, left, (fuel - 1) as nat) == (
        state,
        Ok::<EvaluationView, InterpretErrorView>(EvaluationView::Boolean(decided)),
    ));
    lemma_short_circuit(state, left, operator, right, fuel);
}

/// Calling a callable with another number of arguments than it takes
/// fails, whatever the budget, with an error whose message names the
/// number expected and the number given; the state stays as it is.
pub proof fn lemma_arity_mismatch(
    state: InterpreterView,
    function: CallableView,
    arguments: Seq<EvaluationView>,
    fuel: nat,
)
    requires
        arguments.len() != function.arity(),
    ensures
        invoke(state, EvaluationView::Callable(function), arguments, fuel) == (
            state,
            Err::<EvaluationView, InterpretErrorView>(
                runtime_error(arity_message(function.arity(), arguments.len())),
            ),
        ),
{
}

/// A call with another number of arguments than the function takes
/// fails, whatever the budget, with the error that names both numbers,
/// and binds nothing: the state stays as it is.
pub proof fn lemma_call_arity(
    state: InterpreterView,
    function: CallableView,
    arguments: Seq<EvaluationView>,
    fuel: nat,
)
    requires
        arguments.len() != function.arity(),
    ensures
        call(state, function, arguments, fuel) == (
            state,
            Err::<Option<EvaluationView>, InterpretErrorView>(
                runtime_error(arity_message(function.arity(), arguments.len())),
            ),
        ),
{
}

/// Arguments that evaluate without error yield one value each.
pub proof fn lemma_one_value_per_argument(
    state: InterpreterView,
    arguments: Seq<ExprView>,
    from: int,
    values: Seq<EvaluationView>,
    fuel: nat,
)
    requires
        0 <= from <= arguments.len(),
    ensures
        evaluate_arguments(state, arguments, from, values, fuel).1 matches Ok(all) ==> all.len()
            == values.len() + arguments.len() - from,
    decreases arguments.len() - from,
{
    if from < arguments.len() {
        let (after, result) = evaluate(state, arguments[from], fuel);
        match result {
            Ok(v) => {
                lemma_one_value_per_argument(after, arguments, from + 1, values.push(v), fuel);
            },
            Err(_) => {},
        }
    }
}

/// A call expression whose callee evaluates to a function declared with
/// `n` parameters, with another number of arguments, fails: with the error
/// of the first argument that fails or, where the arguments evaluate, with
/// the error that names `n` and the number of arguments.
pub proof fn lemma_call_with_wrong_arity(
    state: InterpreterView,
    callee: ExprView,
    paren: TokenView,
    arguments: Seq<ExprView>,
    fuel: nat,
)
    requires
        fuel > 0,
        evaluate(state, callee, (fuel - 1) as nat).1 matches Ok(EvaluationView::Callable(f))
            && f.arity() != arguments.len(),
    ensures
        ({
            let call = ExprView::Call { callee: Box::new(callee), paren, arguments };
            let function = evaluate(state, callee, (fuel - 1) as nat).1->Ok_0->Callable_0;
            let evaluated = evaluate_arguments(
                evaluate(state, callee, (fuel - 1) as nat).0,
                arguments,
                0,
                Seq::empty(),
                (fuel - 1) as nat,
            );
            evaluate(state, call, fuel) == (
                evaluated.0,
                match evaluated.1 {
                    Ok(_) => Err::<EvaluationView, InterpretErrorView>(
                        runtime_error(arity_message(function.arity(), arguments.len())),
                    ),
                    Err(e) => Err(e),
                },
            )
        }),
{
    let less = (fuel - 1) as nat;
    let (middle, first) = evaluate(state, callee, less);
    let function = first->Ok_0->Callable_0;
    let (after, second) = evaluate_arguments(middle, arguments, 0, Seq::empty(), less);
    lemma_one_value_per_argument(middle, arguments, 0, Seq::empty(), less);
    match second {
        Ok(values) => {
            assert(values.len() == arguments.len());
            lemma_arity_mismatch(after, function, values, less);
        },
        Err(e) => {},
    }
}

/// `+` joins two texts; on a number and a text it fails with the error
/// that holds both operands.
pub proof fn lemma_addition(a: Seq<char>, b: Seq<char>, n: Number)
    ensures
        binary(EvaluationView::Text(a), TokenType::Plus, EvaluationView::Text(b)) == Ok::<
            EvaluationView,
            InterpretErrorView,
        >(EvaluationView::Text(a + b)),
        binary(EvaluationView::Number(n), TokenType::Plus, EvaluationView::Text(a)) == Err::<
            EvaluationView,
            InterpretErrorView,
        >(
            InterpretErrorView::EvaluationAddOverloaderError {
                lhs: EvaluationView::Number(n),
                rhs: EvaluationView::Text(a),
            },
        ),
{
}

/// `+` has a result exactly on two texts and on two numbers: every two
/// numbers have a sum, which is a number.
pub proof fn lemma_addition_is_total_on_numbers(left: EvaluationView, right: EvaluationView)
    ensures
        addition(left, right) is Ok <==> (left is Text && right is Text) || (left is Number
            && right is Number),
        match (left, right) {
            (EvaluationView::Number(a), EvaluationView::Number(b)) => addition(left, right) == Ok::<
                EvaluationView,
                InterpretErrorView,
            >(EvaluationView::Number(a.sum(b))),
            _ => true,
        },
{
}

/// A unary operator has a result exactly for `-` on a number, and for
/// `!` on a boolean or nil: every number has a negation, which is a
/// number, and negating it again gives the number back.
pub proof fn lemma_unary_is_total_on_numbers(operator: TokenType, right: EvaluationView)
    ensures
        unary(operator, right) is Ok <==> (operator == TokenType::Minus && right is Number) || (
        operator == TokenType::Bang && (right is Boolean || right is Nil)),
        match right {
            EvaluationView::Number(n) => unary(TokenType::Minus, right) == Ok::<
                EvaluationView,
                InterpretErrorView,
            >(EvaluationView::Number(n.negation())) && unary(
                TokenType::Minus,
                EvaluationView::Number(n.negation()),
            ) == Ok::<EvaluationView, InterpretErrorView>(right),
            _ => true,
        },
{
}

/// Of the binary operators on two numbers only division fails, and only
/// by zero.
pub proof fn lemma_arithmetic_is_total_on_numbers(a: Number, operator: TokenType, b: Number)
    requires
        operator == TokenType::Plus || operator == TokenType::Minus || operator == TokenType::Star
            || operator == TokenType::Slash || operator == TokenType::Greater || operator
            == TokenType::GreaterEqual || operator == TokenType::Less || operator
            == TokenType::LessEqual || operator == TokenType::EqualEqual || operator
            == TokenType::BangEqual,
    ensures
        binary(EvaluationView::Number(a), operator, EvaluationView::Number(b)) is Err <==> operator
            == TokenType::Slash && b.value() == 0,
{
}

/// Executing a block leaves the scope that was innermost before it
/// innermost again, however the block ends.
pub proof fn lemma_block_restores_scope(state: InterpreterView, statements: Seq<StmtView>, fuel: nat)
    requires
        fuel > 0,
    ensures
        execute(state, StmtView::Block { statements }, fuel).0.environment.current
            == state.environment.current,
{
    assert(execute(state, StmtView::Block { statements }, fuel) == crate::semantics::execute_block(
        state,
        statements,
        state.environment.current as usize,
        (fuel - 1) as nat,
    ));
}

impl EnvironmentView {
    /// Whether the innermost scope is one of the scopes.
    pub open spec fn has_current(self) -> bool {
        0 <= self.current < self.scopes.len()
    }

    /// Whether `self` keeps the scopes of `before`: the same scope is
    /// innermost, every scope of `before` is still there with the same
    /// scope around it, no scope has lost a name, and no scope but the
    /// innermost has gained one.
    pub open spec fn keeps(self, before: EnvironmentView) -> bool {
        &&& self.current == before.current
        &&& self.scopes.len() >= before.scopes.len()
        &&& forall|i: int|
            0 <= i < before.scopes.len() ==> {
                &&& (#[trigger] self.scopes[i]).enclosing == before.scopes[i].enclosing
                &&& before.scopes[i].bindings.dom().subset_of(self.scopes[i].bindings.dom())
                &&& i != before.current ==> self.scopes[i].bindings.dom()
                    =~= before.scopes[i].bindings.dom()
            }
    }

    /// Whether every scope of `before` is in `self` with the same names
    /// and the same scope around it.
    pub open spec fn keeps_names(self, before: EnvironmentView) -> bool {
        &&& self.scopes.len() >= before.scopes.len()
        &&& forall|i: int|
            0 <= i < before.scopes.len() ==> {
                &&& (#[trigger] self.scopes[i]).enclosing == before.scopes[i].enclosing
                &&& self.scopes[i].bindings.dom() =~= before.scopes[i].bindings.dom()
            }
    }
}

/// What keeps the scopes of an environment that keeps the scopes of a
/// third keeps the scopes of the third.
pub proof fn lemma_keeps_chain(first: EnvironmentView, second: EnvironmentView, third: EnvironmentView)
    requires
        second.keeps(first),
        third.keeps(second),
    ensures
        third.keeps(first),
{
    assert forall|i: int| 0 <= i < first.scopes.len() implies {
        &&& (#[trigger] third.scopes[i]).enclosing == first.scopes[i].enclosing
        &&& first.scopes[i].bindings.dom().subset_of(third.scopes[i].bindings.dom())
        &&& i != first.current ==> third.scopes[i].bindings.dom()
            =~= first.scopes[i].bindings.dom()
    } by {
        assert(second.scopes[i].enclosing == first.scopes[i].enclosing);
    }
}

/// An assignment keeps the scopes, and adds no name to any.
pub proof fn lemma_assignment_keeps(environment: EnvironmentView, name: Seq<char>, value: EvaluationView)
    requires
        environment.has_current(),
    ensures
        environment.assign(name, value) matches Some(after) ==> after.keeps(environment)
            && after.keeps_names(environment),
{
    lemma_assignment_writes_to_owner(environment, environment.current, name, value);
    match environment.owner_from(environment.current, name) {
        Some(owner) => {
            let after = environment.written(owner, name, value);
            lemma_owner_has_name(environment, environment.current, name);
            assert(after.scopes[owner].bindings.dom() =~= environment.scopes[owner].bindings.dom());
            assert forall|i: int| 0 <= i < environment.scopes.len() implies {
                &&& (#[trigger] after.scopes[i]).enclosing == environment.scopes[i].enclosing
                &&& after.scopes[i].bindings.dom() =~= environment.scopes[i].bindings.dom()
            } by {
                if i != owner {
                    assert(after.scopes[i] == environment.scopes[i]);
                }
            }
        },
        None => {},
    }
}

/// The scope that owns a name has the name.
pub proof fn lemma_owner_has_name(environment: EnvironmentView, id: int, name: Seq<char>)
    ensures
        environment.owner_from(id, name) matches Some(owner) ==> 0 <= owner
            < environment.scopes.len() && environment.scopes[owner].bindings.dom().contains(name),
    decreases id,
{
    if 0 <= id < environment.scopes.len() && !environment.scopes[id].bindings.dom().contains(name) {
        match environment.scopes[id].enclosing {
            Some(p) => {
                if p < id {
                    lemma_owner_has_name(environment, p as int, name);
                }
            },
            None => {},
        }
    }
}

/// A definition keeps the scopes.
pub proof fn lemma_definition_keeps(
    environment: EnvironmentView,
    name: Seq<char>,
    value: Option<EvaluationView>,
)
    requires
        environment.has_current(),
    ensures
        environment.define(name, value).keeps(environment),
{
    let after = environment.define(name, value);
    assert forall|i: int| 0 <= i < environment.scopes.len() implies {
        &&& (#[trigger] after.scopes[i]).enclosing == environment.scopes[i].enclosing
        &&& environment.scopes[i].bindings.dom().subset_of(after.scopes[i].bindings.dom())
        &&& i != environment.current ==> after.scopes[i].bindings.dom()
            =~= environment.scopes[i].bindings.dom()
    } by {
        if i != environment.current {
            assert(after.scopes[i] == environment.scopes[i]);
        }
    }
}

/// Binding parameters keeps the scopes.
pub proof fn lemma_bind_keeps(
    environment: EnvironmentView,
    params: Seq<TokenView>,
    arguments: Seq<EvaluationView>,
    from: int,
)
    requires
        environment.has_current(),
    ensures
        bind(environment, params, arguments, from).keeps(environment),
    decreases params.len() - from,
{
    if 0 <= from < params.len() && from < arguments.len() {
        let next = environment.define(params[from].lexeme, Some(arguments[from]));
        lemma_definition_keeps(environment, params[from].lexeme, Some(arguments[from]));
        lemma_bind_keeps(next, params, arguments, from + 1);
        lemma_keeps_chain(environment, next, bind(next, params, arguments, from + 1));
    }
}

/// What was run in a new innermost scope and kept the scopes from there
/// on has, once the scope that was innermost before is innermost again,
/// kept the scopes from before, and the names of each.
pub proof fn lemma_left_scope_keeps(
    before: EnvironmentView,
    enclosing: usize,
    inside: EnvironmentView,
)
    requires
        before.has_current(),
        inside.keeps(before.enter(enclosing)),
    ensures
        inside.leave(before.current).keeps(before),
        inside.leave(before.current).keeps_names(before),
{
    let entered = before.enter(enclosing);
    let after = inside.leave(before.current);
    assert forall|i: int| 0 <= i < before.scopes.len() implies {
        &&& (#[trigger] after.scopes[i]).enclosing == before.scopes[i].enclosing
        &&& after.scopes[i].bindings.dom() =~= before.scopes[i].bindings.dom()
    } by {
        assert(entered.scopes[i] == before.scopes[i]);
        assert(inside.scopes[i].enclosing == entered.scopes[i].enclosing);
    }
}

/// Evaluating an expression keeps the scopes.
pub proof fn lemma_evaluate_keeps(state: InterpreterView, expr: ExprView, fuel: nat)
    requires
        state.environment.has_current(),
    ensures
        evaluate(state, expr, fuel).0.environment.keeps(state.environment),
    decreases fuel, 0nat,
{
    if fuel > 0 {
        let less = (fuel - 1) as nat;
        match expr {
            ExprView::Literal { literal } => {},
            ExprView::Var { name } => {},
            ExprView::Grouping { expr } => {
                lemma_evaluate_keeps(state, *expr, less);
            },
            ExprView::Assign { name, value } => {
                lemma_evaluate_keeps(state, *value, less);
                let (after, result) = evaluate(state, *value, less);
                match result {
                    Ok(v) => {
                        lemma_assignment_keeps(after.environment, name.lexeme, v);
                        match after.environment.assign(name.lexeme, v) {
                            Some(environment) => {
                                lemma_keeps_chain(state.environment, after.environment, environment);
                            },
                            None => {},
                        }
                    },
                    Err(_) => {},
                }
            },
            ExprView::Logical { left, operator, right } => {
                lemma_evaluate_keeps(state, *left, less);
                let (after, result) = evaluate(state, *left, less);
                match result {
                    Ok(v) => {
                        if !short_circuits(operator.token_type, v) {
                            lemma_evaluate_keeps(after, *right, less);
                            lemma_keeps_chain(
                                state.environment,
                                after.environment,
                                evaluate(after, *right, less).0.environment,
                            );
                        }
                    },
                    Err(_) => {},
                }
            },
            ExprView::Unary { operator, right } => {
                lemma_evaluate_keeps(state, *right, less);
            },
            ExprView::Binary { left, operator, right } => {
                lemma_evaluate_keeps(state, *left, less);
                let (middle, first) = evaluate(state, *left, less);
                match first {
                    Ok(l) => {
                        lemma_evaluate_keeps(middle, *right, less);
                        lemma_keeps_chain(
                            state.environment,
                            middle.environment,
                            evaluate(middle, *right, less).0.environment,
                        );
                    },
                    Err(_) => {},
                }
            },
            ExprView::Call { callee, paren, arguments } => {
                lemma_evaluate_keeps(state, *callee, less);
                let (middle, first) = evaluate(state, *callee, less);
                match first {
                    Ok(f) => {
                        lemma_evaluate_arguments_keeps(middle, arguments, 0, Seq::empty(), less);
                        let (after, second) = evaluate_arguments(
                            middle,
                            arguments,
                            0,
                            Seq::empty(),
                            less,
                        );
                        lemma_keeps_chain(state.environment, middle.environment, after.environment);
                        match second {
                            Ok(values) => {
                                lemma_invoke_keeps(after, f, values, less);
                                lemma_keeps_chain(
                                    state.environment,
                                    after.environment,
                                    invoke(after, f, values, less).0.environment,
                                );
                            },
                            Err(_) => {},
                        }
                    },
                    Err(_) => {},
                }
            },
        }
    }
}

/// Evaluating arguments keeps the scopes.
pub proof fn lemma_evaluate_arguments_keeps(
    state: InterpreterView,
    arguments: Seq<ExprView>,
    from: int,
    values: Seq<EvaluationView>,
    fuel: nat,
)
    requires
        state.environment.has_current(),
    ensures
        evaluate_arguments(state, arguments, from, values, fuel).0.environment.keeps(
            state.environment,
        ),
    decreases fuel, arguments.len() - from + 1,
{
    if 0 <= from < arguments.len() {
        lemma_evaluate_keeps(state, arguments[from], fuel);
        let (after, result) = evaluate(state, arguments[from], fuel);
        match result {
            Ok(v) => {
                lemma_evaluate_arguments_keeps(after, arguments, from + 1, values.push(v), fuel);
                lemma_keeps_chain(
                    state.environment,
                    after.environment,
                    evaluate_arguments(
                        after,
                        arguments,
                        from + 1,
                        values.push(v),
                        fuel,
                    ).0.environment,
                );
            },
            Err(_) => {},
        }
    }
}

/// Calling a value keeps the scopes.
pub proof fn lemma_invoke_keeps(
    state: InterpreterView,
    callee: EvaluationView,
    arguments: Seq<EvaluationView>,
    fuel: nat,
)
    requires
        state.environment.has_current(),
    ensures
        invoke(state, callee, arguments, fuel).0.environment.keeps(state.environment),
    decreases fuel, 1nat,
{
    match callee {
        EvaluationView::Callable(f) => {
            lemma_call_keeps(state, f, arguments, fuel);
        },
        _ => {},
    }
}

/// A call keeps the scopes, and the names of each: what the function
/// defines, it defines in scopes of its own.
pub proof fn lemma_call_keeps(
    state: InterpreterView,
    function: CallableView,
    arguments: Seq<EvaluationView>,
    fuel: nat,
)
    requires
        state.environment.has_current(),
    ensures
        call(state, function, arguments, fuel).0.environment.keeps(state.environment),
        call(state, function, arguments, fuel).0.environment.keeps_names(state.environment),
    decreases fuel, 0nat,
{
    match function {
        CallableView::Native(f) => {},
        CallableView::User { declaration, closure } => {
            if arguments.len() == function.arity() && closure < state.environment.scopes.len()
                && fuel > 0 {
                let opened = state.environment.enter(closure);
                let bound = bind(opened, declaration.params, arguments, 0);
                lemma_bind_keeps(opened, declaration.params, arguments, 0);
                let entered = state.with_environment(bound);
                lemma_execute_all_keeps(entered, declaration.body, 0, (fuel - 1) as nat);
                let inside = execute_all(entered, declaration.body, 0, (fuel - 1) as nat).0;
                lemma_keeps_chain(opened, bound, inside.environment);
                lemma_left_scope_keeps(state.environment, closure, inside.environment);
            }
        },
    }
}

/// Executing a statement keeps the scopes.
pub proof fn lemma_execute_keeps(state: InterpreterView, stmt: StmtView, fuel: nat)
    requires
        state.environment.has_current(),
    ensures
        execute(state, stmt, fuel).0.environment.keeps(state.environment),
    decreases fuel, 0nat,
{
    if fuel > 0 {
        let less = (fuel - 1) as nat;
        match stmt {
            StmtView::Expression { expr } => {
                lemma_evaluate_keeps(state, expr, less);
            },
            StmtView::Print { expr } => {
                lemma_evaluate_keeps(state, expr, less);
            },
            StmtView::Var { name, initializer } => match initializer {
                Some(expr) => {
                    lemma_evaluate_keeps(state, expr, less);
                    let (after, result) = evaluate(state, expr, less);
                    match result {
                        Ok(v) => {
                            lemma_definition_keeps(after.environment, name.lexeme, Some(v));
                            lemma_keeps_chain(
                                state.environment,
                                after.environment,
                                after.environment.define(name.lexeme, Some(v)),
                            );
                        },
                        Err(_) => {},
                    }
                },
                None => {
                    lemma_definition_keeps(state.environment, name.lexeme, None);
                },
            },
            StmtView::Block { statements } => {
                lemma_execute_block_keeps(
                    state,
                    statements,
                    state.environment.current as usize,
                    less,
                );
            },
            StmtView::If { condition, then_branch, else_branch } => {
                lemma_evaluate_keeps(state, condition, less);
                let (after, result) = evaluate(state, condition, less);
                match result {
                    Ok(v) => match truth(v) {
                        Ok(true) => {
                            lemma_execute_keeps(after, *then_branch, less);
                            lemma_keeps_chain(
                                state.environment,
                                after.environment,
                                execute(after, *then_branch, less).0.environment,
                            );
                        },
                        Ok(false) => match else_branch {
                            Some(branch) => {
                                lemma_execute_keeps(after, *branch, less);
                                lemma_keeps_chain(
                                    state.environment,
                                    after.environment,
                                    execute(after, *branch, less).0.environment,
                                );
                            },
                            None => {},
                        },
                        Err(_) => {},
                    },
                    Err(_) => {},
                }
            },
            StmtView::While { condition, body } => {
                lemma_evaluate_keeps(state, condition, less);
                let (middle, result) = evaluate(state, condition, less);
                match result {
                    Ok(v) => match truth(v) {
                        Ok(true) => {
                            lemma_execute_keeps(middle, *body, less);
                            let (after, turn) = execute(middle, *body, less);
                            lemma_keeps_chain(
                                state.environment,
                                middle.environment,
                                after.environment,
                            );
                            match turn {
                                Ok(None) => {
                                    lemma_execute_keeps(after, stmt, less);
                                    lemma_keeps_chain(
                                        state.environment,
                                        after.environment,
                                        execute(after, stmt, less).0.environment,
                                    );
                                },
                                _ => {},
                            }
                        },
                        _ => {},
                    },
                    Err(_) => {},
                }
            },
            StmtView::Function { declaration } => {
                let marked = state.environment.capture();
                assert(marked.keeps(state.environment)) by {
                    assert forall|i: int| 0 <= i < state.environment.scopes.len() implies {
                        &&& (#[trigger] marked.scopes[i]).enclosing
                            == state.environment.scopes[i].enclosing
                        &&& marked.scopes[i].bindings.dom()
                            =~= state.environment.scopes[i].bindings.dom()
                    } by {
                        if i != state.environment.current {
                            assert(marked.scopes[i] == state.environment.scopes[i]);
                        }
                    }
                }
                lemma_keeps_chain(
                    state.environment,
                    marked,
                    marked.define(
                        declaration.name.lexeme,
                        Some(
                            EvaluationView::Callable(
                                CallableView::User {
                                    declaration,
                                    closure: state.environment.current as usize,
                                },
                            ),
                        ),
                    ),
                );
                lemma_definition_keeps(
                    marked,
                    declaration.name.lexeme,
                    Some(
                        EvaluationView::Callable(
                            CallableView::User {
                                declaration,
                                closure: state.environment.current as usize,
                            },
                        ),
                    ),
                );
            },
            StmtView::Return { keyword, value } => match value {
                Some(expr) => {
                    lemma_evaluate_keeps(state, expr, less);
                },
                None => {},
            },
        }
    }
}

/// Executing statements in a new scope keeps the scopes, and the names
/// of each: what a block defines, it defines in scopes of its own.
pub proof fn lemma_execute_block_keeps(
    state: InterpreterView,
    statements: Seq<StmtView>,
    enclosing: usize,
    fuel: nat,
)
    requires
        state.environment.has_current(),
    ensures
        execute_block(state, statements, enclosing, fuel).0.environment.keeps(state.environment),
        execute_block(state, statements, enclosing, fuel).0.environment.keeps_names(
            state.environment,
        ),
    decreases fuel, statements.len() + 2,
{
    let entered = state.with_environment(state.environment.enter(enclosing));
    lemma_execute_all_keeps(entered, statements, 0, fuel);
    let inside = execute_all(entered, statements, 0, fuel).0;
    lemma_left_scope_keeps(state.environment, enclosing, inside.environment);
}

/// Executing statements in order keeps the scopes.
pub proof fn lemma_execute_all_keeps(
    state: InterpreterView,
    statements: Seq<StmtView>,
    from: int,
    fuel: nat,
)
    requires
        state.environment.has_current(),
    ensures
        execute_all(state, statements, from, fuel).0.environment.keeps(state.environment),
    decreases fuel, statements.len() - from + 1,
{
    if 0 <= from < statements.len() {
        lemma_execute_keeps(state, statements[from], fuel);
        let (after, result) = execute(state, statements[from], fuel);
        match result {
            Ok(None) => {
                lemma_execute_all_keeps(after, statements, from + 1, fuel);
                lemma_keeps_chain(
                    state.environment,
                    after.environment,
                    execute_all(after, statements, from + 1, fuel).0.environment,
                );
            },
            _ => {},
        }
    }
}

/// Running a block leaves every scope that was there before with the
/// names it had and the scope around it that it had: what the block
/// declares is gone when the block ends.
pub proof fn lemma_block_keeps_names(state: InterpreterView, statements: Seq<StmtView>, fuel: nat)
    requires
        state.environment.has_current(),
    ensures
        execute(state, StmtView::Block { statements }, fuel).0.environment.keeps_names(
            state.environment,
        ),
{
    if fuel > 0 {
        lemma_execute_block_keeps(
            state,
            statements,
            state.environment.current as usize,
            (fuel - 1) as nat,
        );
        assert(execute(state, StmtView::Block { statements }, fuel) == execute_block(
            state,
            statements,
            state.environment.current as usize,
            (fuel - 1) as nat,
        ));
    }
}

} // verus!
