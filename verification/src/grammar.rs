//! The grammar: which syntax tree a sequence of tokens stands for.
//!
//! Each function reads the tokens from a position on and says what it
//! found there, or which error, and how many tokens it read. Operators of
//! one level associate to the left, assignment to the right. A
//! declaration that fails is left out: its error is recorded and the
//! tokens up to the next statement boundary are skipped. The functions
//! for what can hold declarations take the errors recorded before and
//! give the errors recorded after.

use vstd::prelude::*;
use crate::errors::ParseErrorView;
use crate::expr::ExprView;
use crate::stmt::{FunctionView, StmtView};
use crate::token::{LiteralView, TokenType, TokenView};

verus! {

/// The most arguments that a call, and the most parameters that a
/// function, can have.
pub const MAX_ARITY: usize = 255;

/// What reading one construct yields: the construct or an error, and the
/// number of tokens read.
pub struct Parsed<T> {
    pub result: Result<T, ParseErrorView>,
    pub consumed: nat,
}

/// What reading a statement yields: the statement or an error, the number
/// of tokens read, and the errors recorded by then: those recorded before,
/// followed by those of the declarations inside the statement that were
/// left out.
pub struct Recovering<T> {
    pub result: Result<T, ParseErrorView>,
    pub consumed: nat,
    pub errors: Seq<ParseErrorView>,
}

/// What reading a declaration yields: the statement unless the
/// declaration failed, the number of tokens read or skipped, and the
/// errors recorded by then.
pub struct Declared {
    pub statement: Option<StmtView>,
    pub consumed: nat,
    pub errors: Seq<ParseErrorView>,
}

/// What reading a whole program yields.
pub struct Program {
    pub statements: Seq<StmtView>,
    pub errors: Seq<ParseErrorView>,
}

/// The levels of binary operators, loosest first.
#[derive(Debug, Clone, Copy, PartialEq, Eq, Structural)]
pub enum Level {
    Or,
    And,
    Equality,
    Comparison,
    Term,
    Factor,
}

impl Level {
    /// How tightly the operators of the level bind.
    pub open spec fn rank(self) -> nat {
        match self {
            Level::Or => 6,
            Level::And => 5,
            Level::Equality => 4,
            Level::Comparison => 3,
            Level::Term => 2,
            Level::Factor => 1,
        }
    }

    /// The next tighter level, whose expressions are the operands of this
    /// one. The operands of a factor are unary expressions.
    pub open spec fn tighter(self) -> Option<Level> {
        match self {
            Level::Or => Some(Level::And),
            Level::And => Some(Level::Equality),
            Level::Equality => Some(Level::Comparison),
            Level::Comparison => Some(Level::Term),
            Level::Term => Some(Level::Factor),
            Level::Factor => None,
        }
    }

    /// Whether a token of the given kind is an operator of the level.
    pub open spec fn accepts(self, token_type: TokenType) -> bool {
        match self {
            Level::Or => token_type == TokenType::Or,
            Level::And => token_type == TokenType::And,
            Level::Equality => token_type == TokenType::BangEqual || token_type
                == TokenType::EqualEqual,
            Level::Comparison => token_type == TokenType::Greater || token_type
                == TokenType::GreaterEqual || token_type == TokenType::Less || token_type
                == TokenType::LessEqual,
            Level::Term => token_type == TokenType::Plus || token_type == TokenType::Minus,
            Level::Factor => token_type == TokenType::Slash || token_type == TokenType::Star,
        }
    }

    /// The expression of two operands and an operator of the level: a
    /// logical expression for `or` and `and`, a binary one otherwise.
    pub open spec fn combine(self, left: ExprView, operator: TokenView, right: ExprView) -> ExprView {
        match self {
            Level::Or | Level::And => ExprView::Logical {
                left: Box::new(left),
                operator,
                right: Box::new(right),
            },
            _ => ExprView::Binary { left: Box::new(left), operator, right: Box::new(right) },
        }
    }
}

/// The kind of the token at `pos`; past the tokens, the end.
pub open spec fn kind(tokens: Seq<TokenView>, pos: int) -> TokenType {
    if 0 <= pos < tokens.len() {
        tokens[pos].token_type
    } else {
        TokenType::EOF
    }
}

/// Whether the token at `pos` is the end token.
pub open spec fn at_end(tokens: Seq<TokenView>, pos: int) -> bool {
    kind(tokens, pos) == TokenType::EOF
}

/// How many tokens there are from `pos` on.
pub open spec fn remaining(tokens: Seq<TokenView>, pos: int) -> nat {
    if pos <= tokens.len() {
        (tokens.len() - pos) as nat
    } else {
        0
    }
}

/// Reads the token at `pos` if it is of the given kind; otherwise the
/// error with `message`, or the error for the end of the tokens.
pub open spec fn consume(
    tokens: Seq<TokenView>,
    pos: int,
    token_type: TokenType,
    message: Seq<char>,
) -> Parsed<TokenView> {
    if at_end(tokens, pos) {
        Parsed { result: Err(ParseErrorView::ParseEOF { token: tokens[pos] }), consumed: 0 }
    } else if kind(tokens, pos) == token_type {
        Parsed { result: Ok(tokens[pos]), consumed: 1 }
    } else {
        Parsed {
            result: Err(ParseErrorView::ParseFail { token: tokens[pos], message }),
            consumed: 0,
        }
    }
}

/// `value`, read in `consumed` tokens, once the token at `pos` closes it:
/// that token must be of the given kind.
pub open spec fn closed<T>(
    tokens: Seq<TokenView>,
    pos: int,
    token_type: TokenType,
    message: Seq<char>,
    value: T,
    consumed: nat,
) -> Parsed<T> {
    let close = consume(tokens, pos, token_type, message);
    Parsed {
        result: match close.result {
            Ok(_) => Ok(value),
            Err(e) => Err(e),
        },
        consumed: consumed + close.consumed,
    }
}

/// The error `e` after `consumed` tokens.
pub open spec fn failed<T>(e: ParseErrorView, consumed: nat) -> Parsed<T> {
    Parsed { result: Err(e), consumed }
}

/// `expression := assignment`
pub open spec fn expression(tokens: Seq<TokenView>, pos: int) -> Parsed<ExprView>
    decreases remaining(tokens, pos), 30nat,
{
    assignment(tokens, pos)
}

/// `assignment := (variable "=" assignment) | logic_or`
///
/// The left-hand side is read as an expression; unless it is a bare
/// variable the assignment is an error at the `=`.
pub open spec fn assignment(tokens: Seq<TokenView>, pos: int) -> Parsed<ExprView>
    decreases remaining(tokens, pos), 29nat,
{
    let left = binary(tokens, pos, Level::Or);
    let at = pos + left.consumed;
    match left.result {
        Ok(target) => if kind(tokens, at) == TokenType::Equal {
            let value = assignment(tokens, at + 1);
            let consumed = left.consumed + 1 + value.consumed;
            match value.result {
                Ok(v) => match target {
                    ExprView::Var { name } => Parsed {
                        result: Ok(ExprView::Assign { name, value: Box::new(v) }),
                        consumed,
                    },
                    _ => failed(
                        ParseErrorView::InvalidAssignmentTarget { token: tokens[at] },
                        consumed,
                    ),
                },
                Err(e) => failed(e, consumed),
            }
        } else {
            left
        },
        Err(_) => left,
    }
}

/// An operand of the operators of `level`.
pub open spec fn operand(tokens: Seq<TokenView>, pos: int, level: Level) -> Parsed<ExprView>
    decreases remaining(tokens, pos), 9 + 2 * level.rank(),
{
    match level.tighter() {
        Some(next) => binary(tokens, pos, next),
        None => unary(tokens, pos),
    }
}

/// `operand (operator operand)*` for the operators of `level`.
pub open spec fn binary(tokens: Seq<TokenView>, pos: int, level: Level) -> Parsed<ExprView>
    decreases remaining(tokens, pos), 10 + 2 * level.rank(),
{
    let first = operand(tokens, pos, level);
    match first.result {
        Ok(left) => binary_rest(tokens, pos + first.consumed, level, left, first.consumed),
        Err(_) => first,
    }
}

/// `(operator operand)*` after the expression `left`, which was read in
/// `consumed` tokens: each operator takes what was read so far as its
/// left operand.
pub open spec fn binary_rest(
    tokens: Seq<TokenView>,
    pos: int,
    level: Level,
    left: ExprView,
    consumed: nat,
) -> Parsed<ExprView>
    decreases remaining(tokens, pos), 9 + 2 * level.rank(),
{
    if level.accepts(kind(tokens, pos)) {
        let right = operand(tokens, pos + 1, level);
        let total = consumed + 1 + right.consumed;
        match right.result {
            Ok(r) => binary_rest(
                tokens,
                pos + 1 + right.consumed,
                level,
                level.combine(left, tokens[pos], r),
                total,
            ),
            Err(e) => failed(e, total),
        }
    } else {
        Parsed { result: Ok(left), consumed }
    }
}

/// `unary := (("!"|"-") unary) | call`
pub open spec fn unary(tokens: Seq<TokenView>, pos: int) -> Parsed<ExprView>
    decreases remaining(tokens, pos), 8nat,
{
    if kind(tokens, pos) == TokenType::Bang || kind(tokens, pos) == TokenType::Minus {
        let right = unary(tokens, pos + 1);
        Parsed {
            result: match right.result {
                Ok(r) => Ok(ExprView::Unary { operator: tokens[pos], right: Box::new(r) }),
                Err(e) => Err(e),
            },
            consumed: 1 + right.consumed,
        }
    } else {
        call(tokens, pos)
    }
}

/// `call := primary ("(" arguments? ")")*`
pub open spec fn call(tokens: Seq<TokenView>, pos: int) -> Parsed<ExprView>
    decreases remaining(tokens, pos), 6nat,
{
    let callee = primary(tokens, pos);
    match callee.result {
        Ok(c) => call_rest(tokens, pos + callee.consumed, c, callee.consumed),
        Err(_) => callee,
    }
}

/// `("(" arguments? ")")*` after the expression `callee`, which was read
/// in `consumed` tokens.
pub open spec fn call_rest(tokens: Seq<TokenView>, pos: int, callee: ExprView, consumed: nat) -> Parsed<
    ExprView,
>
    decreases remaining(tokens, pos), 5nat,
{
    if kind(tokens, pos) == TokenType::LeftParen {
        let list = arguments(tokens, pos + 1);
        let total = consumed + 1 + list.consumed;
        match list.result {
            Ok((values, paren)) => call_rest(
                tokens,
                pos + 1 + list.consumed,
                ExprView::Call { callee: Box::new(callee), paren, arguments: values },
                total,
            ),
            Err(e) => failed(e, total),
        }
    } else {
        Parsed { result: Ok(callee), consumed }
    }
}

/// `arguments? ")"`: the arguments of a call and its closing parenthesis.
pub open spec fn arguments(tokens: Seq<TokenView>, pos: int) -> Parsed<(Seq<ExprView>, TokenView)>
    decreases remaining(tokens, pos), 32nat,
{
    if kind(tokens, pos) == TokenType::RightParen {
        Parsed { result: Ok((Seq::empty(), tokens[pos])), consumed: 1 }
    } else {
        argument_list(tokens, pos, Seq::empty(), 0)
    }
}

/// `expression ("," expression)* ")"` after the arguments `before`, which
/// were read in `consumed` tokens. A call takes at most 255 arguments.
pub open spec fn argument_list(
    tokens: Seq<TokenView>,
    pos: int,
    before: Seq<ExprView>,
    consumed: nat,
) -> Parsed<(Seq<ExprView>, TokenView)>
    decreases remaining(tokens, pos), 31nat,
{
    if before.len() >= MAX_ARITY {
        failed(ParseErrorView::ArgumentsOverflow { token: tokens[pos] }, consumed)
    } else {
        let argument = expression(tokens, pos);
        let at = pos + argument.consumed;
        match argument.result {
            Ok(a) => if kind(tokens, at) == TokenType::Comma {
                argument_list(tokens, at + 1, before.push(a), consumed + argument.consumed + 1)
            } else {
                closed(
                    tokens,
                    at,
                    TokenType::RightParen,
                    "Expect ')' after arguments."@,
                    (before.push(a), tokens[at]),
                    consumed + argument.consumed,
                )
            },
            Err(e) => failed(e, consumed + argument.consumed),
        }
    }
}

/// `primary := NUMBER | STRING | "true" | "false" | "nil" | IDENTIFIER |
/// "(" expression ")"`
pub open spec fn primary(tokens: Seq<TokenView>, pos: int) -> Parsed<ExprView>
    decreases remaining(tokens, pos), 4nat,
{
    let token = tokens[pos];
    let unexpected = failed(
        ParseErrorView::ParseFail { token, message: "Expect expression."@ },
        0,
    );
    if at_end(tokens, pos) {
        failed(ParseErrorView::ParseEOF { token }, 0)
    } else {
        match token.token_type {
            TokenType::True => Parsed {
                result: Ok(ExprView::Literal { literal: LiteralView::Boolean(true) }),
                consumed: 1,
            },
            TokenType::False => Parsed {
                result: Ok(ExprView::Literal { literal: LiteralView::Boolean(false) }),
                consumed: 1,
            },
            TokenType::Nil => Parsed {
                result: Ok(ExprView::Literal { literal: LiteralView::Nil }),
                consumed: 1,
            },
            TokenType::Number | TokenType::String => match token.literal {
                Some(literal) => Parsed { result: Ok(ExprView::Literal { literal }), consumed: 1 },
                None => unexpected,
            },
            TokenType::Identifier => Parsed {
                result: Ok(ExprView::Var { name: token }),
                consumed: 1,
            },
            TokenType::LeftParen => {
                let inner = expression(tokens, pos + 1);
                match inner.result {
                    Ok(e) => closed(
                        tokens,
                        pos + 1 + inner.consumed,
                        TokenType::RightParen,
                        "Expect ')' after expression."@,
                        ExprView::Grouping { expr: Box::new(e) },
                        1 + inner.consumed,
                    ),
                    Err(e) => failed(e, 1 + inner.consumed),
                }
            },
            _ => unexpected,
        }
    }
}

/// A statement that holds no other statement, as one that recorded no
/// errors beyond `errors`.
pub open spec fn plain<T>(parsed: Parsed<T>, errors: Seq<ParseErrorView>) -> Recovering<T> {
    Recovering { result: parsed.result, consumed: parsed.consumed, errors }
}

/// What was read `before` tokens after the start, as read from the start.
pub open spec fn after<T>(before: nat, parsed: Recovering<T>) -> Recovering<T> {
    Recovering { consumed: before + parsed.consumed, ..parsed }
}

/// Whether a token of the given kind begins a declaration.
pub open spec fn begins_declaration(token_type: TokenType) -> bool {
    token_type == TokenType::Class || token_type == TokenType::Fun || token_type
        == TokenType::Var || token_type == TokenType::For || token_type == TokenType::If
        || token_type == TokenType::While || token_type == TokenType::Print || token_type
        == TokenType::Return
}

/// How many tokens from `pos` on are skipped until a statement boundary:
/// the position after a semicolon, a token that begins a declaration, or
/// the end.
pub open spec fn skipped(tokens: Seq<TokenView>, pos: int) -> nat
    decreases remaining(tokens, pos),
{
    if at_end(tokens, pos) || kind(tokens, pos - 1) == TokenType::Semicolon || begins_declaration(
        kind(tokens, pos),
    ) {
        0
    } else {
        1 + skipped(tokens, pos + 1)
    }
}

/// How many tokens are discarded after an error at `pos`: the token at
/// `pos` and those up to the next statement boundary.
pub open spec fn synchronize(tokens: Seq<TokenView>, pos: int) -> nat {
    if at_end(tokens, pos) {
        0
    } else {
        1 + skipped(tokens, pos + 1)
    }
}

/// Whether `pos` is a statement boundary: the end, the position after a
/// semicolon, or a token that begins a declaration.
pub open spec fn is_boundary(tokens: Seq<TokenView>, pos: int) -> bool {
    at_end(tokens, pos) || kind(tokens, pos - 1) == TokenType::Semicolon || begins_declaration(
        kind(tokens, pos),
    )
}

/// Skipping stops at the first statement boundary from `pos` on.
pub proof fn lemma_skipped_to_boundary(tokens: Seq<TokenView>, pos: int)
    ensures
        is_boundary(tokens, pos + skipped(tokens, pos)),
        forall|j: int| pos <= j < pos + skipped(tokens, pos) ==> !is_boundary(tokens, j),
    decreases remaining(tokens, pos),
{
    if !is_boundary(tokens, pos) {
        lemma_skipped_to_boundary(tokens, pos + 1);
    }
}

/// After an error at a token that is not the end token, at least that
/// token is discarded, and tokens are discarded up to the first statement
/// boundary after it: the parser stops at the end, after a semicolon, or
/// before a token that begins a declaration, and has passed no such place
/// on the way.
pub proof fn lemma_synchronize_stops_at_boundary(tokens: Seq<TokenView>, pos: int)
    requires
        !at_end(tokens, pos),
    ensures
        synchronize(tokens, pos) > 0,
        is_boundary(tokens, pos + synchronize(tokens, pos)),
        forall|j: int| pos < j < pos + synchronize(tokens, pos) ==> !is_boundary(tokens, j),
{
    lemma_skipped_to_boundary(tokens, pos + 1);
}

/// A declaration: a function, a variable or a statement.
pub open spec fn declared(tokens: Seq<TokenView>, pos: int, errors: Seq<ParseErrorView>) -> Recovering<
    StmtView,
>
    decreases remaining(tokens, pos), 59nat,
{
    if kind(tokens, pos) == TokenType::Fun {
        after(1, function(tokens, pos + 1, errors))
    } else if kind(tokens, pos) == TokenType::Var {
        after(1, plain(var_declaration(tokens, pos + 1), errors))
    } else {
        statement(tokens, pos, errors)
    }
}

/// A declaration with recovery: where the declaration fails, its error is
/// recorded and the tokens up to the next statement boundary are skipped.
pub open spec fn declaration(tokens: Seq<TokenView>, pos: int, errors: Seq<ParseErrorView>) -> Declared
    decreases remaining(tokens, pos), 60nat,
{
    let parsed = declared(tokens, pos, errors);
    match parsed.result {
        Ok(s) => Declared { statement: Some(s), consumed: parsed.consumed, errors: parsed.errors },
        Err(e) => Declared {
            statement: None,
            consumed: parsed.consumed + synchronize(tokens, pos + parsed.consumed),
            errors: parsed.errors.push(e),
        },
    }
}

/// `IDENTIFIER "(" parameters? ")" "{" block`: a function declaration
/// after its `fun`.
pub open spec fn function(tokens: Seq<TokenView>, pos: int, errors: Seq<ParseErrorView>) -> Recovering<
    StmtView,
>
    decreases remaining(tokens, pos), 80nat,
{
    let name = consume(tokens, pos, TokenType::Identifier, "Expect function name."@);
    let paren = consume(tokens, pos + 1, TokenType::LeftParen, "Expect '(' after function name."@);
    match (name.result, paren.result) {
        (Ok(n), Ok(_)) => {
            let list = parameters(tokens, pos + 2);
            let at = pos + 2 + list.consumed;
            let brace = consume(tokens, at, TokenType::LeftBrace, "Expect '{' before function body."@);
            match (list.result, brace.result) {
                (Ok(params), Ok(_)) => {
                    let body = block(tokens, at + 1, errors);
                    Recovering {
                        result: match body.result {
                            Ok(statements) => Ok(
                                StmtView::Function {
                                    declaration: FunctionView { name: n, params, body: statements },
                                },
                            ),
                            Err(e) => Err(e),
                        },
                        consumed: 2 + list.consumed + 1 + body.consumed,
                        errors: body.errors,
                    }
                },
                (Ok(_), Err(e)) => plain(failed(e, 2 + list.consumed), errors),
                (Err(e), _) => plain(failed(e, 2 + list.consumed), errors),
            }
        },
        (Ok(_), Err(e)) => plain(failed(e, 1), errors),
        (Err(e), _) => plain(failed(e, 0), errors),
    }
}

/// `parameters? ")"`: the parameters of a function.
pub open spec fn parameters(tokens: Seq<TokenView>, pos: int) -> Parsed<Seq<TokenView>> {
    if kind(tokens, pos) == TokenType::RightParen {
        Parsed { result: Ok(Seq::empty()), consumed: 1 }
    } else {
        parameter_list(tokens, pos, Seq::empty(), 0)
    }
}

/// `IDENTIFIER ("," IDENTIFIER)* ")"` after the parameters `before`,
/// which were read in `consumed` tokens. A function has at most 255
/// parameters.
pub open spec fn parameter_list(
    tokens: Seq<TokenView>,
    pos: int,
    before: Seq<TokenView>,
    consumed: nat,
) -> Parsed<Seq<TokenView>>
    decreases remaining(tokens, pos),
{
    if before.len() >= MAX_ARITY {
        failed(ParseErrorView::ParametersOverflow { token: tokens[pos] }, consumed)
    } else {
        let name = consume(tokens, pos, TokenType::Identifier, "Expect parameter name."@);
        match name.result {
            Ok(n) => if kind(tokens, pos + 1) == TokenType::Comma {
                parameter_list(tokens, pos + 2, before.push(n), consumed + 2)
            } else {
                closed(
                    tokens,
                    pos + 1,
                    TokenType::RightParen,
                    "Expect ')' after parameters."@,
                    before.push(n),
                    consumed + 1,
                )
            },
            Err(e) => failed(e, consumed),
        }
    }
}

/// `IDENTIFIER ("=" expression)? ";"`: a variable declaration after its
/// `var`.
pub open spec fn var_declaration(tokens: Seq<TokenView>, pos: int) -> Parsed<StmtView>
    decreases remaining(tokens, pos), 40nat,
{
    let name = consume(tokens, pos, TokenType::Identifier, "Expect variable name."@);
    match name.result {
        Ok(n) => if kind(tokens, pos + 1) == TokenType::Equal {
            let value = expression(tokens, pos + 2);
            match value.result {
                Ok(v) => closed(
                    tokens,
                    pos + 2 + value.consumed,
                    TokenType::Semicolon,
                    "Expect ';' after variable declaration."@,
                    StmtView::Var { name: n, initializer: Some(v) },
                    2 + value.consumed,
                ),
                Err(e) => failed(e, 2 + value.consumed),
            }
        } else {
            closed(
                tokens,
                pos + 1,
                TokenType::Semicolon,
                "Expect ';' after variable declaration."@,
                StmtView::Var { name: n, initializer: None },
                1,
            )
        },
        Err(e) => failed(e, 0),
    }
}

/// A statement, by its first token.
pub open spec fn statement(tokens: Seq<TokenView>, pos: int, errors: Seq<ParseErrorView>) -> Recovering<
    StmtView,
>
    decreases remaining(tokens, pos), 50nat,
{
    match kind(tokens, pos) {
        TokenType::For => after(1, for_statement(tokens, pos + 1, errors)),
        TokenType::While => after(1, while_statement(tokens, pos + 1, errors)),
        TokenType::If => after(1, if_statement(tokens, pos + 1, errors)),
        TokenType::Print => after(1, plain(print_statement(tokens, pos + 1), errors)),
        TokenType::Return => after(
            1,
            plain(return_statement(tokens, pos + 1, tokens[pos]), errors),
        ),
        TokenType::LeftBrace => {
            let body = block(tokens, pos + 1, errors);
            Recovering {
                result: match body.result {
                    Ok(statements) => Ok(StmtView::Block { statements }),
                    Err(e) => Err(e),
                },
                consumed: 1 + body.consumed,
                errors: body.errors,
            }
        },
        _ => plain(expression_statement(tokens, pos), errors),
    }
}

/// The loop that a `for` statement stands for: the body followed by the
/// increment, run while the condition holds (always, where there is no
/// condition), after the initializer.
pub open spec fn for_loop(
    initializer: Option<StmtView>,
    condition: Option<ExprView>,
    increment: Option<ExprView>,
    body: StmtView,
) -> StmtView {
    let turn = match increment {
        Some(i) => StmtView::Block { statements: seq![body, StmtView::Expression { expr: i }] },
        None => body,
    };
    let repeated = StmtView::While {
        condition: match condition {
            Some(c) => c,
            None => ExprView::Literal { literal: LiteralView::Boolean(true) },
        },
        body: Box::new(turn),
    };
    match initializer {
        Some(i) => StmtView::Block { statements: seq![i, repeated] },
        None => repeated,
    }
}

/// The initializer of a `for` statement: nothing but a semicolon, a
/// variable declaration or an expression statement.
pub open spec fn for_initializer(tokens: Seq<TokenView>, pos: int) -> Parsed<Option<StmtView>>
    decreases remaining(tokens, pos), 47nat,
{
    if kind(tokens, pos) == TokenType::Semicolon {
        Parsed { result: Ok(None), consumed: 1 }
    } else {
        let parsed = if kind(tokens, pos) == TokenType::Var {
            let declared = var_declaration(tokens, pos + 1);
            Parsed { consumed: 1 + declared.consumed, ..declared }
        } else {
            expression_statement(tokens, pos)
        };
        Parsed {
            result: match parsed.result {
                Ok(s) => Ok(Some(s)),
                Err(e) => Err(e),
            },
            consumed: parsed.consumed,
        }
    }
}

/// An expression, unless the token at `pos` is of the kind `closing`, and
/// then that token.
pub open spec fn optional_clause(
    tokens: Seq<TokenView>,
    pos: int,
    closing: TokenType,
    message: Seq<char>,
) -> Parsed<Option<ExprView>>
    decreases remaining(tokens, pos), 47nat,
{
    if kind(tokens, pos) == closing {
        Parsed { result: Ok(None), consumed: 1 }
    } else {
        let clause = expression(tokens, pos);
        match clause.result {
            Ok(c) => closed(tokens, pos + clause.consumed, closing, message, Some(c), clause.consumed),
            Err(e) => failed(e, clause.consumed),
        }
    }
}

/// The three clauses of a `for` statement.
pub struct ForHeader {
    pub initializer: Option<StmtView>,
    pub condition: Option<ExprView>,
    pub increment: Option<ExprView>,
}

/// `"(" initializer condition? ";" increment? ")"`: the header of a `for`
/// statement.
pub open spec fn for_header(tokens: Seq<TokenView>, pos: int) -> Parsed<ForHeader>
    decreases remaining(tokens, pos), 49nat,
{
    let paren = consume(tokens, pos, TokenType::LeftParen, "Expect '(' after 'for'."@);
    let first = for_initializer(tokens, pos + 1);
    let second = optional_clause(
        tokens,
        pos + 1 + first.consumed,
        TokenType::Semicolon,
        "Expect ';' after loop condition."@,
    );
    let third = optional_clause(
        tokens,
        pos + 1 + first.consumed + second.consumed,
        TokenType::RightParen,
        "Expect ')' after for clauses."@,
    );
    match paren.result {
        Ok(_) => match first.result {
            Ok(initializer) => match second.result {
                Ok(condition) => Parsed {
                    result: match third.result {
                        Ok(increment) => Ok(ForHeader { initializer, condition, increment }),
                        Err(e) => Err(e),
                    },
                    consumed: 1 + first.consumed + second.consumed + third.consumed,
                },
                Err(e) => failed(e, 1 + first.consumed + second.consumed),
            },
            Err(e) => failed(e, 1 + first.consumed),
        },
        Err(e) => failed(e, 0),
    }
}

/// `"(" initializer condition? ";" increment? ")" statement`: a `for`
/// statement after its `for`.
pub open spec fn for_statement(tokens: Seq<TokenView>, pos: int, errors: Seq<ParseErrorView>) -> Recovering<
    StmtView,
>
    decreases remaining(tokens, pos), 80nat,
{
    let header = for_header(tokens, pos);
    match header.result {
        Ok(h) => {
            let body = statement(tokens, pos + header.consumed, errors);
            Recovering {
                result: match body.result {
                    Ok(b) => Ok(for_loop(h.initializer, h.condition, h.increment, b)),
                    Err(e) => Err(e),
                },
                consumed: header.consumed + body.consumed,
                errors: body.errors,
            }
        },
        Err(e) => plain(failed(e, header.consumed), errors),
    }
}

/// `"(" expression ")"`: the condition of a `while` or an `if`.
pub open spec fn condition(
    tokens: Seq<TokenView>,
    pos: int,
    open_message: Seq<char>,
    close_message: Seq<char>,
) -> Parsed<ExprView>
    decreases remaining(tokens, pos), 47nat,
{
    let paren = consume(tokens, pos, TokenType::LeftParen, open_message);
    match paren.result {
        Ok(_) => {
            let inner = expression(tokens, pos + 1);
            match inner.result {
                Ok(c) => closed(
                    tokens,
                    pos + 1 + inner.consumed,
                    TokenType::RightParen,
                    close_message,
                    c,
                    1 + inner.consumed,
                ),
                Err(e) => failed(e, 1 + inner.consumed),
            }
        },
        Err(e) => failed(e, 0),
    }
}

/// `"(" expression ")" statement`: a `while` statement after its `while`.
pub open spec fn while_statement(tokens: Seq<TokenView>, pos: int, errors: Seq<ParseErrorView>) -> Recovering<
    StmtView,
>
    decreases remaining(tokens, pos), 80nat,
{
    let head = condition(tokens, pos, "Expect '(' after 'while'."@, "Expect ')' after condition."@);
    match head.result {
        Ok(c) => {
            let body = statement(tokens, pos + head.consumed, errors);
            Recovering {
                result: match body.result {
                    Ok(b) => Ok(StmtView::While { condition: c, body: Box::new(b) }),
                    Err(e) => Err(e),
                },
                consumed: head.consumed + body.consumed,
                errors: body.errors,
            }
        },
        Err(e) => plain(failed(e, head.consumed), errors),
    }
}

/// `"(" expression ")" statement ("else" statement)?`: an `if` statement
/// after its `if`.
pub open spec fn if_statement(tokens: Seq<TokenView>, pos: int, errors: Seq<ParseErrorView>) -> Recovering<
    StmtView,
>
    decreases remaining(tokens, pos), 80nat,
{
    let head = condition(tokens, pos, "Expect '(' after 'if'."@, "Expect ')' after 'if'."@);
    match head.result {
        Ok(c) => {
            let then_branch = statement(tokens, pos + head.consumed, errors);
            let at = pos + head.consumed + then_branch.consumed;
            match then_branch.result {
                Ok(t) => if kind(tokens, at) == TokenType::Else {
                    let else_branch = statement(tokens, at + 1, then_branch.errors);
                    Recovering {
                        result: match else_branch.result {
                            Ok(e) => Ok(
                                StmtView::If {
                                    condition: c,
                                    then_branch: Box::new(t),
                                    else_branch: Some(Box::new(e)),
                                },
                            ),
                            Err(e) => Err(e),
                        },
                        consumed: head.consumed + then_branch.consumed + 1 + else_branch.consumed,
                        errors: else_branch.errors,
                    }
                } else {
                    Recovering {
                        result: Ok(
                            StmtView::If {
                                condition: c,
                                then_branch: Box::new(t),
                                else_branch: None,
                            },
                        ),
                        consumed: head.consumed + then_branch.consumed,
                        errors: then_branch.errors,
                    }
                },
                Err(e) => Recovering {
                    result: Err(e),
                    consumed: head.consumed + then_branch.consumed,
                    errors: then_branch.errors,
                },
            }
        },
        Err(e) => plain(failed(e, head.consumed), errors),
    }
}

/// `expression ";"`: a `print` statement after its `print`.
pub open spec fn print_statement(tokens: Seq<TokenView>, pos: int) -> Parsed<StmtView>
    decreases remaining(tokens, pos), 47nat,
{
    let value = expression(tokens, pos);
    match value.result {
        Ok(v) => closed(
            tokens,
            pos + value.consumed,
            TokenType::Semicolon,
            "Expect ';' after value."@,
            StmtView::Print { expr: v },
            value.consumed,
        ),
        Err(e) => failed(e, value.consumed),
    }
}

/// `expression? ";"`: a `return` statement after its `return`, the token
/// `keyword`.
pub open spec fn return_statement(tokens: Seq<TokenView>, pos: int, keyword: TokenView) -> Parsed<
    StmtView,
>
    decreases remaining(tokens, pos), 48nat,
{
    let value = optional_clause(
        tokens,
        pos,
        TokenType::Semicolon,
        "Expect ';' after return value."@,
    );
    Parsed {
        result: match value.result {
            Ok(v) => Ok(StmtView::Return { keyword, value: v }),
            Err(e) => Err(e),
        },
        consumed: value.consumed,
    }
}

/// `declaration* "}"`: a block after its `{`.
pub open spec fn block(tokens: Seq<TokenView>, pos: int, errors: Seq<ParseErrorView>) -> Recovering<
    Seq<StmtView>,
>
    decreases remaining(tokens, pos), 71nat,
{
    block_rest(tokens, pos, Seq::empty(), 0, errors)
}

/// `declaration* "}"` after the statements `before`, which were read in
/// `consumed` tokens. Every declaration reads at least one token (see
/// [`lemma_declaration_advances`]); the block would end with one that did
/// not.
pub open spec fn block_rest(
    tokens: Seq<TokenView>,
    pos: int,
    before: Seq<StmtView>,
    consumed: nat,
    errors: Seq<ParseErrorView>,
) -> Recovering<Seq<StmtView>>
    decreases remaining(tokens, pos), 70nat,
{
    if at_end(tokens, pos) || kind(tokens, pos) == TokenType::RightBrace {
        let done = closed(
            tokens,
            pos,
            TokenType::RightBrace,
            "Expect '}' after block."@,
            before,
            consumed,
        );
        Recovering { result: done.result, consumed: done.consumed, errors }
    } else {
        let next = declaration(tokens, pos, errors);
        if next.consumed > 0 {
            block_rest(
                tokens,
                pos + next.consumed,
                match next.statement {
                    Some(s) => before.push(s),
                    None => before,
                },
                consumed + next.consumed,
                next.errors,
            )
        } else {
            Recovering { result: Ok(before), consumed, errors: next.errors }
        }
    }
}

/// One more declaration of a block: where the block is not at its end,
/// what follows the declaration is the rest of the block.
pub proof fn lemma_block_goes_on(
    tokens: Seq<TokenView>,
    pos: int,
    before: Seq<StmtView>,
    consumed: nat,
    errors: Seq<ParseErrorView>,
)
    requires
        !at_end(tokens, pos),
        kind(tokens, pos) != TokenType::RightBrace,
    ensures
        ({
            let next = declaration(tokens, pos, errors);
            block_rest(tokens, pos, before, consumed, errors) == block_rest(
                tokens,
                pos + next.consumed,
                match next.statement {
                    Some(s) => before.push(s),
                    None => before,
                },
                consumed + next.consumed,
                next.errors,
            )
        }),
{
    lemma_declaration_advances(tokens, pos, errors);
}

/// One more declaration of a program: where the program is not at its
/// end, what follows the declaration is the rest of the program.
pub proof fn lemma_program_step(
    tokens: Seq<TokenView>,
    pos: int,
    before: Seq<StmtView>,
    errors: Seq<ParseErrorView>,
)
    requires
        !at_end(tokens, pos),
    ensures
        ({
            let next = declaration(tokens, pos, errors);
            program_rest(tokens, pos, before, errors) == program_rest(
                tokens,
                pos + next.consumed,
                match next.statement {
                    Some(s) => before.push(s),
                    None => before,
                },
                next.errors,
            )
        }),
{
    lemma_declaration_advances(tokens, pos, errors);
}

/// `expression ";"`: an expression statement.
pub open spec fn expression_statement(tokens: Seq<TokenView>, pos: int) -> Parsed<StmtView>
    decreases remaining(tokens, pos), 45nat,
{
    let value = expression(tokens, pos);
    match value.result {
        Ok(v) => closed(
            tokens,
            pos + value.consumed,
            TokenType::Semicolon,
            "Expect ';' after expression."@,
            StmtView::Expression { expr: v },
            value.consumed,
        ),
        Err(e) => failed(e, value.consumed),
    }
}

/// What follows an expression is read after it: the operators and
/// operands of a level add to the tokens read.
pub proof fn lemma_binary_rest_reads(
    tokens: Seq<TokenView>,
    pos: int,
    level: Level,
    left: ExprView,
    consumed: nat,
)
    ensures
        binary_rest(tokens, pos, level, left, consumed).consumed >= consumed,
    decreases remaining(tokens, pos),
{
    if level.accepts(kind(tokens, pos)) {
        let right = operand(tokens, pos + 1, level);
        match right.result {
            Ok(r) => {
                lemma_binary_rest_reads(
                    tokens,
                    pos + 1 + right.consumed,
                    level,
                    level.combine(left, tokens[pos], r),
                    consumed + 1 + right.consumed,
                );
            },
            Err(_) => {},
        }
    }
}

/// What follows a callee is read after it: argument lists add to the
/// tokens read.
pub proof fn lemma_call_rest_reads(tokens: Seq<TokenView>, pos: int, callee: ExprView, consumed: nat)
    ensures
        call_rest(tokens, pos, callee, consumed).consumed >= consumed,
    decreases remaining(tokens, pos),
{
    if kind(tokens, pos) == TokenType::LeftParen {
        let list = arguments(tokens, pos + 1);
        match list.result {
            Ok((values, paren)) => {
                lemma_call_rest_reads(
                    tokens,
                    pos + 1 + list.consumed,
                    ExprView::Call { callee: Box::new(callee), paren, arguments: values },
                    consumed + 1 + list.consumed,
                );
            },
            Err(_) => {},
        }
    }
}

/// A unary expression that is read without error is read from at least
/// one token.
pub proof fn lemma_unary_reads(tokens: Seq<TokenView>, pos: int)
    ensures
        unary(tokens, pos).result is Ok ==> unary(tokens, pos).consumed > 0,
{
    if kind(tokens, pos) == TokenType::Bang || kind(tokens, pos) == TokenType::Minus {
    } else {
        assert(unary(tokens, pos) == call(tokens, pos));
        let callee = primary(tokens, pos);
        match callee.result {
            Ok(c) => {
                assert(callee.consumed > 0);
                lemma_call_rest_reads(tokens, pos + callee.consumed, c, callee.consumed);
                assert(call(tokens, pos) == call_rest(
                    tokens,
                    pos + callee.consumed,
                    c,
                    callee.consumed,
                ));
            },
            Err(_) => {
                assert(call(tokens, pos) == callee);
            },
        }
    }
}

/// An expression of any level that is read without error is read from at
/// least one token.
pub proof fn lemma_binary_reads(tokens: Seq<TokenView>, pos: int, level: Level)
    ensures
        binary(tokens, pos, level).result is Ok ==> binary(tokens, pos, level).consumed > 0,
    decreases level.rank(),
{
    let first = operand(tokens, pos, level);
    match level.tighter() {
        Some(next) => {
            lemma_binary_reads(tokens, pos, next);
            assert(first == binary(tokens, pos, next));
        },
        None => {
            lemma_unary_reads(tokens, pos);
            assert(first == unary(tokens, pos));
        },
    }
    match first.result {
        Ok(left) => {
            lemma_binary_rest_reads(tokens, pos + first.consumed, level, left, first.consumed);
            assert(binary(tokens, pos, level) == binary_rest(
                tokens,
                pos + first.consumed,
                level,
                left,
                first.consumed,
            ));
        },
        Err(_) => {
            assert(binary(tokens, pos, level) == first);
        },
    }
}

/// A declaration that does not begin at the end token reads or skips at
/// least one token: reading declaration after declaration comes to the
/// end.
pub proof fn lemma_declaration_advances(
    tokens: Seq<TokenView>,
    pos: int,
    errors: Seq<ParseErrorView>,
)
    requires
        !at_end(tokens, pos),
    ensures
        declaration(tokens, pos, errors).consumed > 0,
{
    lemma_binary_reads(tokens, pos, Level::Or);
    let parsed = declared(tokens, pos, errors);
    if kind(tokens, pos) == TokenType::Fun || kind(tokens, pos) == TokenType::Var {
        assert(parsed.consumed > 0);
    } else {
        assert(parsed == statement(tokens, pos, errors));
        match kind(tokens, pos) {
            TokenType::For
            | TokenType::While
            | TokenType::If
            | TokenType::Print
            | TokenType::Return
            | TokenType::LeftBrace => {
                assert(parsed.consumed > 0);
            },
            _ => {
                let read = expression_statement(tokens, pos);
                assert(parsed == plain(read, errors));
                assert(expression(tokens, pos) == binary(tokens, pos, Level::Or)
                    || expression(tokens, pos).consumed > 0) by {
                    assert(expression(tokens, pos) == assignment(tokens, pos));
                }
                assert(read.result is Ok ==> read.consumed > 0);
            },
        }
    }
}

/// The declarations from `pos` up to the end token, after the statements
/// `before` and the errors `errors`.
pub open spec fn program_rest(
    tokens: Seq<TokenView>,
    pos: int,
    before: Seq<StmtView>,
    errors: Seq<ParseErrorView>,
) -> Program
    decreases remaining(tokens, pos),
{
    if at_end(tokens, pos) {
        Program { statements: before, errors }
    } else {
        let next = declaration(tokens, pos, errors);
        if next.consumed > 0 {
            program_rest(
                tokens,
                pos + next.consumed,
                match next.statement {
                    Some(s) => before.push(s),
                    None => before,
                },
                next.errors,
            )
        } else {
            Program { statements: before, errors: next.errors }
        }
    }
}

/// Reading a program goes on after every declaration, also after one that
/// fails: a declaration that is read adds its statement, one that fails
/// adds its error and no statement, and the rest of the program is read
/// from the next statement boundary.
pub proof fn lemma_program_goes_on(
    tokens: Seq<TokenView>,
    pos: int,
    before: Seq<StmtView>,
    errors: Seq<ParseErrorView>,
)
    requires
        !at_end(tokens, pos),
    ensures
        ({
            let read = declared(tokens, pos, errors);
            program_rest(tokens, pos, before, errors) == match read.result {
                Ok(s) => program_rest(tokens, pos + read.consumed, before.push(s), read.errors),
                Err(e) => program_rest(
                    tokens,
                    pos + read.consumed + synchronize(tokens, pos + read.consumed),
                    before,
                    read.errors.push(e),
                ),
            }
        }),
{
    lemma_declaration_advances(tokens, pos, errors);
}

/// The program that a sequence of tokens stands for: the declarations
/// that could be read, in order, and the errors of those that could not.
pub open spec fn program(tokens: Seq<TokenView>) -> Program {
    program_rest(tokens, 0, Seq::empty(), Seq::empty())
}

} // verus!
