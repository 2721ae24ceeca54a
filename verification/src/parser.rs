//! The parser: tokens to syntax trees, by recursive descent.
//!
//! Every function computes what the function of the same construct in
//! [`crate::grammar`] says.

use vstd::prelude::*;
use crate::errors::{parse_error_views, ParseError, ParseErrorView};
use crate::expr::{
    Expr,
    ExprAssign,
    ExprBinary,
    ExprCall,
    ExprGrouping,
    ExprLiteral,
    ExprLogical,
    ExprUnary,
    ExprVar,
    ExprView,
};
use crate::grammar;
use crate::grammar::{Level, Parsed, Recovering, MAX_ARITY};
use crate::scanner::{lemma_scan_ends, scan, scan_source, ScanError};
use crate::stmt::{
    Stmt,
    StmtBlock,
    StmtFunction,
    StmtIf,
    StmtReturn,
    StmtVar,
    StmtView,
    StmtWhile,
    optional_expr_view,
    optional_stmt_view,
};
use crate::token::{Literal, Token, TokenType, TokenView, token_views};

verus! {

/// The model of the result of reading one construct.
pub open spec fn result_view<T: View>(r: Result<T, ParseError>) -> Result<T::V, ParseErrorView> {
    match r {
        Ok(v) => Ok(v@),
        Err(e) => Err(e@),
    }
}

impl Level {
    /// Whether a token of the given kind is an operator of the level.
    pub fn takes(self, token_type: TokenType) -> (r: bool)
        ensures
            r == self.accepts(token_type),
    {
        match self {
            Level::Or => token_type == TokenType::Or,
            Level::And => token_type == TokenType::And,
            Level::Equality => token_type == TokenType::BangEqual || token_type
                == TokenType::EqualEqual,
            Level::Comparison => token_type == TokenType::Greater || token_type
                == TokenType::GreaterEqual || token_type == TokenType::Less || token_type
                == TokenType::LessEqual,
            Level::Term => token_type == TokenType::Plus || token_type == TokenType::Minus,
            Level::Factor => token_type == TokenType::Slash || token_type == TokenType::Star,
        }
    }

    /// The next tighter level, if there is one.
    pub fn next(self) -> (r: Option<Level>)
        ensures
            r == self.tighter(),
    {
        match self {
            Level::Or => Some(Level::And),
            Level::And => Some(Level::Equality),
            Level::Equality => Some(Level::Comparison),
            Level::Comparison => Some(Level::Term),
            Level::Term => Some(Level::Factor),
            Level::Factor => None,
        }
    }

    /// The expression of two operands and an operator of the level.
    pub fn join(self, left: Expr, operator: Token, right: Expr) -> (r: Expr)
        ensures
            r@ == self.combine(left@, operator@, right@),
    {
        match self {
            Level::Or | Level::And => Expr::Logical(ExprLogical::new(left, operator, right)),
            _ => Expr::Binary(ExprBinary::new(left, operator, right)),
        }
    }
}

/// A parser over one sequence of tokens.
pub struct Parser {
    /// The tokens, the end token last.
    pub tokens: Vec<Token>,
    /// The next token to read.
    pub current: usize,
    /// The errors of the declarations that were left out.
    pub errors: Vec<ParseError>,
}

impl Parser {
    /// The tokens end with the end token, and the next token to read is
    /// one of them.
    pub open spec fn well_formed(self) -> bool {
        &&& self.tokens@.len() > 0
        &&& self.tokens@.last().token_type == TokenType::EOF
        &&& self.current < self.tokens@.len()
    }

    /// The models of the tokens.
    pub open spec fn input(self) -> Seq<TokenView> {
        token_views(self.tokens@)
    }

    /// Whether `after` is `before` once it has read `consumed` tokens and
    /// recorded no error.
    pub open spec fn read(before: Parser, after: Parser, consumed: nat) -> bool {
        &&& after.tokens == before.tokens
        &&& after.errors == before.errors
        &&& after.current == before.current + consumed
        &&& after.well_formed()
    }

    /// Whether `after` and `r` are what reading an expression from
    /// `before` yields, `expected` being what the grammar says.
    pub open spec fn yields<T: View>(
        before: Parser,
        after: Parser,
        r: Result<T, ParseError>,
        expected: Parsed<T::V>,
    ) -> bool {
        &&& Self::read(before, after, expected.consumed)
        &&& result_view(r) == expected.result
    }

    /// The models of the errors recorded so far.
    pub open spec fn recorded(self) -> Seq<ParseErrorView> {
        parse_error_views(self.errors@)
    }

    /// Whether `after` is `before` once it has read `consumed` tokens, with
    /// `errors` the errors recorded by then.
    pub open spec fn moved(
        before: Parser,
        after: Parser,
        consumed: nat,
        errors: Seq<ParseErrorView>,
    ) -> bool {
        &&& after.tokens == before.tokens
        &&& after.recorded() == errors
        &&& after.current == before.current + consumed
        &&& after.well_formed()
    }

    /// Whether `after` and `r` are what reading a statement from `before`
    /// yields, `expected` being what the grammar says.
    pub open spec fn recovers(
        before: Parser,
        after: Parser,
        r: Result<Stmt, ParseError>,
        expected: Recovering<StmtView>,
    ) -> bool {
        &&& Self::moved(before, after, expected.consumed, expected.errors)
        &&& result_view(r) == expected.result
    }

    /// A parser at the beginning of `tokens`.
    pub fn new(tokens: Vec<Token>) -> (r: Self)
        ensures
            r.tokens == tokens,
            r.current == 0,
            r.errors@.len() == 0,
    {
        Self { tokens, current: 0, errors: Vec::new() }
    }

    /// Whether the parser is well formed: the tokens end with the end
    /// token, and the next token to read is one of them.
    pub fn is_well_formed(&self) -> (r: bool)
        ensures
            r == self.well_formed(),
    {
        let n = self.tokens.len();
        n > 0 && self.tokens[n - 1].token_type == TokenType::EOF && self.current < n
    }

    /// The next token to read.
    fn peek(&self) -> (r: &Token)
        requires
            self.well_formed(),
        ensures
            *r == self.tokens@[self.current as int],
            r@ == self.input()[self.current as int],
            r.token_type == grammar::kind(self.input(), self.current as int),
    {
        &self.tokens[self.current]
    }

    /// The token read last.
    fn previous(&self) -> (r: &Token)
        requires
            self.well_formed(),
            self.current > 0,
        ensures
            *r == self.tokens@[self.current - 1],
            r.token_type == grammar::kind(self.input(), self.current - 1),
    {
        &self.tokens[self.current - 1]
    }

    /// Whether the next token is the end token.
    fn is_at_end(&self) -> (r: bool)
        requires
            self.well_formed(),
        ensures
            r == grammar::at_end(self.input(), self.current as int),
            !r ==> self.current + 1 < self.tokens.len(),
    {
        self.peek().token_type == TokenType::EOF
    }

    /// Whether the next token is of the given kind.
    fn check(&self, token_type: TokenType) -> (r: bool)
        requires
            self.well_formed(),
        ensures
            r == (grammar::kind(self.input(), self.current as int) == token_type),
    {
        self.peek().token_type == token_type
    }

    /// Reads the next token, unless it is the end token, and returns the
    /// token read last.
    fn advance(&mut self) -> (r: Token)
        requires
            old(self).well_formed(),
            !grammar::at_end(old(self).input(), old(self).current as int),
        ensures
            Self::read(*old(self), *final(self), 1),
            r == old(self).tokens@[old(self).current as int],
            r@ == old(self).input()[old(self).current as int],
    {
        if !self.is_at_end() {
            self.current += 1;
        }
        self.previous().clone()
    }

    /// Reads the next token if it is of the given kind.
    fn match_token(&mut self, token_type: TokenType) -> (r: bool)
        requires
            old(self).well_formed(),
        ensures
            r == (grammar::kind(old(self).input(), old(self).current as int) == token_type
                && token_type != TokenType::EOF),
            Self::read(
                *old(self),
                *final(self),
                if r {
                    1
                } else {
                    0
                },
            ),
    {
        if self.is_at_end() {
            return false;
        }
        if self.peek().token_type == token_type {
            self.current += 1;
            true
        } else {
            false
        }
    }

    /// Reads the next token, which must be of the given kind.
    fn consume(&mut self, token_type: TokenType, message: &str) -> (r: Result<Token, ParseError>)
        requires
            old(self).well_formed(),
        ensures
            Self::yields(
                *old(self),
                *final(self),
                r,
                grammar::consume(old(self).input(), old(self).current as int, token_type, message@),
            ),
    {
        if self.is_at_end() {
            return Err(ParseError::ParseEOF { token: self.peek().clone() });
        }
        if self.peek().token_type == token_type {
            return Ok(self.advance());
        }
        Err(ParseError::ParseFail { token: self.peek().clone(), message: message.to_owned() })
    }

    /// Reads an expression.
    pub fn expression(&mut self) -> (r: Result<Expr, ParseError>)
        requires
            old(self).well_formed(),
        ensures
            Self::yields(
                *old(self),
                *final(self),
                r,
                grammar::expression(old(self).input(), old(self).current as int),
            ),
            r is Ok ==> final(self).current > old(self).current,
        decreases old(self).tokens@.len() - old(self).current, 30nat,
    {
        self.assignment()
    }

    /// Reads an assignment or, where no `=` follows, what would have been
    /// its left-hand side.
    fn assignment(&mut self) -> (r: Result<Expr, ParseError>)
        requires
            old(self).well_formed(),
        ensures
            Self::yields(
                *old(self),
                *final(self),
                r,
                grammar::assignment(old(self).input(), old(self).current as int),
            ),
            r is Ok ==> final(self).current > old(self).current,
        decreases old(self).tokens@.len() - old(self).current, 29nat,
    {
        let expr = match self.binary_expr(Level::Or) {
            Ok(e) => e,
            Err(e) => {
                return Err(e);
            },
        };
        if self.check(TokenType::Equal) {
            let equals = self.advance();
            let value = match self.assignment() {
                Ok(v) => v,
                Err(e) => {
                    return Err(e);
                },
            };
            return match expr {
                Expr::Var(target) => Ok(Expr::Assign(ExprAssign::new(target.name, value))),
                _ => Err(ParseError::InvalidAssignmentTarget { token: equals }),
            };
        }
        Ok(expr)
    }

    /// Reads an operand of the operators of `level`.
    fn operand(&mut self, level: Level) -> (r: Result<Expr, ParseError>)
        requires
            old(self).well_formed(),
        ensures
            Self::yields(
                *old(self),
                *final(self),
                r,
                grammar::operand(old(self).input(), old(self).current as int, level),
            ),
            r is Ok ==> final(self).current > old(self).current,
        decreases old(self).tokens@.len() - old(self).current, 9 + 2 * level.rank(),
    {
        match level.next() {
            Some(next) => self.binary_expr(next),
            None => self.unary_expr(),
        }
    }

    /// Reads operands of `level` joined by operators of `level`; the
    /// operators associate to the left.
    pub fn binary_expr(&mut self, level: Level) -> (r: Result<Expr, ParseError>)
        requires
            old(self).well_formed(),
        ensures
            Self::yields(
                *old(self),
                *final(self),
                r,
                grammar::binary(old(self).input(), old(self).current as int, level),
            ),
            r is Ok ==> final(self).current > old(self).current,
        decreases old(self).tokens@.len() - old(self).current, 10 + 2 * level.rank(),
    {
        let mut expr = match self.operand(level) {
            Ok(e) => e,
            Err(e) => {
                return Err(e);
            },
        };
        while level.takes(self.peek().token_type)
            invariant
                self.tokens == old(self).tokens,
                self.errors == old(self).errors,
                self.well_formed(),
                old(self).well_formed(),
                self.current > old(self).current,
                grammar::binary_rest(
                    self.input(),
                    self.current as int,
                    level,
                    expr@,
                    (self.current - old(self).current) as nat,
                ) == grammar::binary(old(self).input(), old(self).current as int, level),
            decreases self.tokens@.len() - self.current,
        {
            let operator = self.advance();
            let right = match self.operand(level) {
                Ok(e) => e,
                Err(e) => {
                    return Err(e);
                },
            };
            expr = level.join(expr, operator, right);
        }
        Ok(expr)
    }

    /// Reads a unary expression: any number of `!` and `-` before a call.
    pub fn unary_expr(&mut self) -> (r: Result<Expr, ParseError>)
        requires
            old(self).well_formed(),
        ensures
            Self::yields(
                *old(self),
                *final(self),
                r,
                grammar::unary(old(self).input(), old(self).current as int),
            ),
            r is Ok ==> final(self).current > old(self).current,
        decreases old(self).tokens@.len() - old(self).current, 8nat,
    {
        if self.check(TokenType::Bang) || self.check(TokenType::Minus) {
            let operator = self.advance();
            return match self.unary_expr() {
                Ok(right) => Ok(Expr::Unary(ExprUnary::new(operator, right))),
                Err(e) => Err(e),
            };
        }
        self.call()
    }

    /// Reads a primary expression and the argument lists that follow it.
    #[verifier::rlimit(40)]
    fn call(&mut self) -> (r: Result<Expr, ParseError>)
        requires
            old(self).well_formed(),
        ensures
            Self::yields(
                *old(self),
                *final(self),
                r,
                grammar::call(old(self).input(), old(self).current as int),
            ),
            r is Ok ==> final(self).current > old(self).current,
        decreases old(self).tokens@.len() - old(self).current, 6nat,
    {
        let mut expr = match self.primary() {
            Ok(e) => e,
            Err(e) => {
                return Err(e);
            },
        };
        while self.check(TokenType::LeftParen)
            invariant
                self.tokens == old(self).tokens,
                self.errors == old(self).errors,
                self.well_formed(),
                old(self).well_formed(),
                self.current > old(self).current,
                grammar::call_rest(
                    self.input(),
                    self.current as int,
                    expr@,
                    (self.current - old(self).current) as nat,
                ) == grammar::call(old(self).input(), old(self).current as int),
            decreases self.tokens@.len() - self.current,
        {
            let ghost callee = expr@;
            let ghost at = self.current as int;
            let ghost before = (self.current - old(self).current) as nat;
            let ghost list = grammar::arguments(self.input(), at + 1);
            expr = match self.finish_call(expr) {
                Ok(e) => e,
                Err(e) => {
                    return Err(e);
                },
            };
            assert(grammar::call_rest(self.input(), at, callee, before) == grammar::call_rest(
                self.input(),
                at + 1 + list.consumed,
                expr@,
                before + 1 + list.consumed,
            ));
        }
        Ok(expr)
    }

    /// Reads one argument list, from its opening parenthesis on, and
    /// returns the call of `callee` with those arguments.
    fn finish_call(&mut self, callee: Expr) -> (r: Result<Expr, ParseError>)
        requires
            old(self).well_formed(),
            grammar::kind(old(self).input(), old(self).current as int) == TokenType::LeftParen,
        ensures
            Self::read(
                *old(self),
                *final(self),
                1 + grammar::arguments(old(self).input(), old(self).current + 1).consumed,
            ),
            match grammar::arguments(old(self).input(), old(self).current + 1).result {
                Ok((values, paren)) => r matches Ok(x) && x@ == (ExprView::Call {
                    callee: Box::new(callee@),
                    paren,
                    arguments: values,
                }),
                Err(e) => r matches Err(x) && x@ == e,
            },
        decreases old(self).tokens@.len() - old(self).current, 3nat,
    {
        self.advance();
        match self.arguments() {
            Ok((arguments, paren)) => Ok(Expr::Call(ExprCall::new(callee, paren, arguments))),
            Err(e) => Err(e),
        }
    }

    /// Reads the arguments of a call and its closing parenthesis.
    fn arguments(&mut self) -> (r: Result<(Vec<Expr>, Token), ParseError>)
        requires
            old(self).well_formed(),
        ensures
            Self::read(
                *old(self),
                *final(self),
                grammar::arguments(old(self).input(), old(self).current as int).consumed,
            ),
            match grammar::arguments(old(self).input(), old(self).current as int).result {
                Ok((values, paren)) => r matches Ok(list) && Expr::models(list.0@) == values
                    && list.1@ == paren,
                Err(e) => r matches Err(x) && x@ == e,
            },
            r is Ok ==> final(self).current > old(self).current,
        decreases old(self).tokens@.len() - old(self).current, 32nat,
    {
        let mut arguments: Vec<Expr> = Vec::new();
        if self.check(TokenType::RightParen) {
            let paren = self.advance();
            assert(Expr::models(arguments@) =~= Seq::empty());
            return Ok((arguments, paren));
        }
        assert(Expr::models(arguments@) =~= Seq::empty());
        loop
            invariant
                self.tokens == old(self).tokens,
                self.errors == old(self).errors,
                self.well_formed(),
                old(self).well_formed(),
                self.current >= old(self).current,
                grammar::argument_list(
                    self.input(),
                    self.current as int,
                    Expr::models(arguments@),
                    (self.current - old(self).current) as nat,
                ) == grammar::arguments(old(self).input(), old(self).current as int),
            decreases self.tokens@.len() - self.current,
        {
            if arguments.len() >= MAX_ARITY {
                return Err(ParseError::ArgumentsOverflow { token: self.peek().clone() });
            }
            let argument = match self.expression() {
                Ok(e) => e,
                Err(e) => {
                    return Err(e);
                },
            };
            proof {
                assert(Expr::models(arguments@.push(argument)) =~= Expr::models(arguments@).push(
                    argument@,
                ));
            }
            arguments.push(argument);
            if self.match_token(TokenType::Comma) {
            } else {
                return match self.consume(TokenType::RightParen, "Expect ')' after arguments.") {
                    Ok(paren) => Ok((arguments, paren)),
                    Err(e) => Err(e),
                };
            }
        }
    }

    /// Reads a literal, a variable or a parenthesised expression.
    fn primary(&mut self) -> (r: Result<Expr, ParseError>)
        requires
            old(self).well_formed(),
        ensures
            Self::yields(
                *old(self),
                *final(self),
                r,
                grammar::primary(old(self).input(), old(self).current as int),
            ),
            r is Ok ==> final(self).current > old(self).current,
        decreases old(self).tokens@.len() - old(self).current, 4nat,
    {
        if self.is_at_end() {
            return Err(ParseError::ParseEOF { token: self.peek().clone() });
        }
        let token = self.peek().clone();
        match token.token_type {
            TokenType::True => {
                self.advance();
                Ok(Expr::Literal(ExprLiteral::new(Literal::Boolean(true))))
            },
            TokenType::False => {
                self.advance();
                Ok(Expr::Literal(ExprLiteral::new(Literal::Boolean(false))))
            },
            TokenType::Nil => {
                self.advance();
                Ok(Expr::Literal(ExprLiteral::new(Literal::Nil)))
            },
            TokenType::Number | TokenType::String => match token.literal {
                Some(literal) => {
                    self.advance();
                    Ok(Expr::Literal(ExprLiteral::new(literal)))
                },
                None => Err(
                    ParseError::ParseFail { token, message: "Expect expression.".to_owned() },
                ),
            },
            TokenType::Identifier => {
                self.advance();
                Ok(Expr::Var(ExprVar::new(token)))
            },
            TokenType::LeftParen => {
                self.advance();
                let expr = match self.expression() {
                    Ok(e) => e,
                    Err(e) => {
                        return Err(e);
                    },
                };
                match self.consume(TokenType::RightParen, "Expect ')' after expression.") {
                    Ok(_) => Ok(Expr::Grouping(ExprGrouping::new(expr))),
                    Err(e) => Err(e),
                }
            },
            _ => Err(ParseError::ParseFail { token, message: "Expect expression.".to_owned() }),
        }
    }

    /// Discards the token at which a declaration failed and those up to
    /// the next statement boundary.
    fn synchronize(&mut self)
        requires
            old(self).well_formed(),
        ensures
            Self::read(
                *old(self),
                *final(self),
                grammar::synchronize(old(self).input(), old(self).current as int),
            ),
            !grammar::at_end(old(self).input(), old(self).current as int) ==> final(self).current
                > old(self).current,
    {
        if self.is_at_end() {
            return ;
        }
        self.current += 1;
        while !self.is_at_end() && self.previous().token_type != TokenType::Semicolon
            && !begins_declaration(self.peek().token_type)
            invariant
                self.tokens == old(self).tokens,
                self.errors == old(self).errors,
                self.well_formed(),
                self.current > old(self).current,
                grammar::skipped(self.input(), self.current as int) + (self.current - old(
                    self,
                ).current - 1) == grammar::skipped(self.input(), old(self).current + 1),
            decreases self.tokens@.len() - self.current,
        {
            self.current += 1;
        }
    }

    /// Reads a declaration. Where it fails, the error is recorded, the
    /// tokens up to the next statement boundary are skipped and there is
    /// no statement.
    fn declaration(&mut self) -> (r: Option<Stmt>)
        requires
            old(self).well_formed(),
        ensures
            Self::moved(
                *old(self),
                *final(self),
                grammar::declaration(
                    old(self).input(),
                    old(self).current as int,
                    old(self).recorded(),
                ).consumed,
                grammar::declaration(
                    old(self).input(),
                    old(self).current as int,
                    old(self).recorded(),
                ).errors,
            ),
            match grammar::declaration(
                old(self).input(),
                old(self).current as int,
                old(self).recorded(),
            ).statement {
                Some(s) => r matches Some(x) && x@ == s,
                None => r is None,
            },
            !grammar::at_end(old(self).input(), old(self).current as int) ==> final(self).current
                > old(self).current,
        decreases old(self).tokens@.len() - old(self).current, 60nat,
    {
        match self.declared() {
            Ok(s) => Some(s),
            Err(e) => {
                proof {
                    assert(parse_error_views(self.errors@.push(e)) =~= self.recorded().push(e@));
                }
                self.errors.push(e);
                self.synchronize();
                None
            },
        }
    }

    /// Reads a declaration and, unless it fails, adds its statement to
    /// `statements`.
    fn declaration_into(&mut self, statements: &mut Vec<Stmt>)
        requires
            old(self).well_formed(),
        ensures
            Self::moved(
                *old(self),
                *final(self),
                grammar::declaration(
                    old(self).input(),
                    old(self).current as int,
                    old(self).recorded(),
                ).consumed,
                grammar::declaration(
                    old(self).input(),
                    old(self).current as int,
                    old(self).recorded(),
                ).errors,
            ),
            Stmt::models(final(statements)@) == match grammar::declaration(
                old(self).input(),
                old(self).current as int,
                old(self).recorded(),
            ).statement {
                Some(s) => Stmt::models(old(statements)@).push(s),
                None => Stmt::models(old(statements)@),
            },
            !grammar::at_end(old(self).input(), old(self).current as int) ==> final(self).current
                > old(self).current,
        decreases old(self).tokens@.len() - old(self).current, 61nat,
    {
        match self.declaration() {
            Some(s) => {
                proof {
                    assert(Stmt::models(statements@.push(s)) =~= Stmt::models(statements@).push(
                        s@,
                    ));
                }
                statements.push(s);
            },
            None => {},
        }
    }

    /// Reads a function declaration, a variable declaration or a
    /// statement.
    fn declared(&mut self) -> (r: Result<Stmt, ParseError>)
        requires
            old(self).well_formed(),
        ensures
            Self::recovers(
                *old(self),
                *final(self),
                r,
                grammar::declared(old(self).input(), old(self).current as int, old(self).recorded()),
            ),
            r is Ok ==> final(self).current > old(self).current,
        decreases old(self).tokens@.len() - old(self).current, 59nat,
    {
        if self.match_token(TokenType::Fun) {
            self.function()
        } else if self.match_token(TokenType::Var) {
            self.var_declaration()
        } else {
            self.statement()
        }
    }

    /// Reads a function declaration after its `fun`.
    fn function(&mut self) -> (r: Result<Stmt, ParseError>)
        requires
            old(self).well_formed(),
        ensures
            Self::recovers(
                *old(self),
                *final(self),
                r,
                grammar::function(old(self).input(), old(self).current as int, old(self).recorded()),
            ),
        decreases old(self).tokens@.len() - old(self).current, 80nat,
    {
        let name = match self.consume(TokenType::Identifier, "Expect function name.") {
            Ok(t) => t,
            Err(e) => {
                return Err(e);
            },
        };
        match self.consume(TokenType::LeftParen, "Expect '(' after function name.") {
            Ok(_) => {},
            Err(e) => {
                return Err(e);
            },
        }
        let params = match self.parameters() {
            Ok(p) => p,
            Err(e) => {
                return Err(e);
            },
        };
        match self.consume(TokenType::LeftBrace, "Expect '{' before function body.") {
            Ok(_) => {},
            Err(e) => {
                return Err(e);
            },
        }
        match self.block() {
            Ok(body) => Ok(Stmt::Function(StmtFunction::new(name, params, body))),
            Err(e) => Err(e),
        }
    }

    /// Reads the parameters of a function and the closing parenthesis.
    fn parameters(&mut self) -> (r: Result<Vec<Token>, ParseError>)
        requires
            old(self).well_formed(),
        ensures
            Self::read(
                *old(self),
                *final(self),
                grammar::parameters(old(self).input(), old(self).current as int).consumed,
            ),
            match grammar::parameters(old(self).input(), old(self).current as int).result {
                Ok(names) => r matches Ok(list) && token_views(list@) == names,
                Err(e) => r matches Err(x) && x@ == e,
            },
    {
        let mut params: Vec<Token> = Vec::new();
        assert(token_views(params@) =~= Seq::empty());
        if self.match_token(TokenType::RightParen) {
            return Ok(params);
        }
        loop
            invariant
                self.tokens == old(self).tokens,
                self.errors == old(self).errors,
                self.well_formed(),
                old(self).well_formed(),
                self.current >= old(self).current,
                grammar::parameter_list(
                    self.input(),
                    self.current as int,
                    token_views(params@),
                    (self.current - old(self).current) as nat,
                ) == grammar::parameters(old(self).input(), old(self).current as int),
            decreases self.tokens@.len() - self.current,
        {
            if params.len() >= MAX_ARITY {
                return Err(ParseError::ParametersOverflow { token: self.peek().clone() });
            }
            let name = match self.consume(TokenType::Identifier, "Expect parameter name.") {
                Ok(t) => t,
                Err(e) => {
                    return Err(e);
                },
            };
            proof {
                assert(token_views(params@.push(name)) =~= token_views(params@).push(name@));
            }
            params.push(name);
            if self.match_token(TokenType::Comma) {
            } else {
                return match self.consume(TokenType::RightParen, "Expect ')' after parameters.") {
                    Ok(_) => Ok(params),
                    Err(e) => Err(e),
                };
            }
        }
    }

    /// Reads a variable declaration after its `var`.
    fn var_declaration(&mut self) -> (r: Result<Stmt, ParseError>)
        requires
            old(self).well_formed(),
        ensures
            Self::yields(
                *old(self),
                *final(self),
                r,
                grammar::var_declaration(old(self).input(), old(self).current as int),
            ),
        decreases old(self).tokens@.len() - old(self).current, 40nat,
    {
        let name = match self.consume(TokenType::Identifier, "Expect variable name.") {
            Ok(t) => t,
            Err(e) => {
                return Err(e);
            },
        };
        let mut initializer: Option<Expr> = None;
        if self.match_token(TokenType::Equal) {
            match self.expression() {
                Ok(e) => {
                    initializer = Some(e);
                },
                Err(e) => {
                    return Err(e);
                },
            }
        }
        match self.consume(TokenType::Semicolon, "Expect ';' after variable declaration.") {
            Ok(_) => Ok(Stmt::Var(StmtVar::new(name, initializer))),
            Err(e) => Err(e),
        }
    }

    /// Reads a statement.
    fn statement(&mut self) -> (r: Result<Stmt, ParseError>)
        requires
            old(self).well_formed(),
        ensures
            Self::recovers(
                *old(self),
                *final(self),
                r,
                grammar::statement(old(self).input(), old(self).current as int, old(self).recorded()),
            ),
            r is Ok ==> final(self).current > old(self).current,
        decreases old(self).tokens@.len() - old(self).current, 50nat,
    {
        match self.peek().token_type {
            TokenType::For => {
                self.advance();
                self.for_statement()
            },
            TokenType::While => {
                self.advance();
                self.while_statement()
            },
            TokenType::If => {
                self.advance();
                self.if_statement()
            },
            TokenType::Print => {
                self.advance();
                self.print_statement()
            },
            TokenType::Return => {
                let keyword = self.advance();
                self.return_statement(keyword)
            },
            TokenType::LeftBrace => {
                self.advance();
                match self.block() {
                    Ok(statements) => Ok(Stmt::Block(StmtBlock::new(statements))),
                    Err(e) => Err(e),
                }
            },
            _ => self.expression_statement(),
        }
    }

    /// Reads the initializer of a `for` statement.
    fn for_initializer(&mut self) -> (r: Result<Option<Stmt>, ParseError>)
        requires
            old(self).well_formed(),
        ensures
            Self::read(
                *old(self),
                *final(self),
                grammar::for_initializer(old(self).input(), old(self).current as int).consumed,
            ),
            match grammar::for_initializer(old(self).input(), old(self).current as int).result {
                Ok(s) => r matches Ok(x) && optional_stmt_view(x) == s,
                Err(e) => r matches Err(x) && x@ == e,
            },
        decreases old(self).tokens@.len() - old(self).current, 47nat,
    {
        if self.match_token(TokenType::Semicolon) {
            return Ok(None);
        }
        let parsed = if self.match_token(TokenType::Var) {
            self.var_declaration()
        } else {
            self.expression_statement()
        };
        match parsed {
            Ok(s) => Ok(Some(s)),
            Err(e) => Err(e),
        }
    }

    /// Reads an expression and the token that closes it, or that token
    /// alone.
    fn optional_clause(&mut self, closing: TokenType, message: &str) -> (r: Result<
        Option<Expr>,
        ParseError,
    >)
        requires
            old(self).well_formed(),
            closing != TokenType::EOF,
        ensures
            Self::read(
                *old(self),
                *final(self),
                grammar::optional_clause(
                    old(self).input(),
                    old(self).current as int,
                    closing,
                    message@,
                ).consumed,
            ),
            match grammar::optional_clause(
                old(self).input(),
                old(self).current as int,
                closing,
                message@,
            ).result {
                Ok(clause) => r matches Ok(x) && optional_expr_view(x) == clause,
                Err(e) => r matches Err(x) && x@ == e,
            },
        decreases old(self).tokens@.len() - old(self).current, 47nat,
    {
        if self.match_token(closing) {
            return Ok(None);
        }
        let clause = match self.expression() {
            Ok(e) => e,
            Err(e) => {
                return Err(e);
            },
        };
        match self.consume(closing, message) {
            Ok(_) => Ok(Some(clause)),
            Err(e) => Err(e),
        }
    }

    /// Reads the header of a `for` statement.
    fn for_header(&mut self) -> (r: Result<(Option<Stmt>, Option<Expr>, Option<Expr>), ParseError>)
        requires
            old(self).well_formed(),
        ensures
            Self::read(
                *old(self),
                *final(self),
                grammar::for_header(old(self).input(), old(self).current as int).consumed,
            ),
            match grammar::for_header(old(self).input(), old(self).current as int).result {
                Ok(h) => r matches Ok(x) && optional_stmt_view(x.0) == h.initializer
                    && optional_expr_view(x.1) == h.condition && optional_expr_view(x.2)
                    == h.increment,
                Err(e) => r matches Err(x) && x@ == e,
            },
        decreases old(self).tokens@.len() - old(self).current, 49nat,
    {
        match self.consume(TokenType::LeftParen, "Expect '(' after 'for'.") {
            Ok(_) => {},
            Err(e) => {
                return Err(e);
            },
        }
        let initializer = match self.for_initializer() {
            Ok(s) => s,
            Err(e) => {
                return Err(e);
            },
        };
        let condition = match self.optional_clause(
            TokenType::Semicolon,
            "Expect ';' after loop condition.",
        ) {
            Ok(c) => c,
            Err(e) => {
                return Err(e);
            },
        };
        match self.optional_clause(TokenType::RightParen, "Expect ')' after for clauses.") {
            Ok(increment) => Ok((initializer, condition, increment)),
            Err(e) => Err(e),
        }
    }

    /// Reads a `for` statement after its `for`, as the loop it stands
    /// for.
    fn for_statement(&mut self) -> (r: Result<Stmt, ParseError>)
        requires
            old(self).well_formed(),
        ensures
            Self::recovers(
                *old(self),
                *final(self),
                r,
                grammar::for_statement(
                    old(self).input(),
                    old(self).current as int,
                    old(self).recorded(),
                ),
            ),
        decreases old(self).tokens@.len() - old(self).current, 80nat,
    {
        let (initializer, condition, increment) = match self.for_header() {
            Ok(h) => h,
            Err(e) => {
                return Err(e);
            },
        };
        match self.statement() {
            Ok(body) => Ok(Self::for_loop(initializer, condition, increment, body)),
            Err(e) => Err(e),
        }
    }

    /// The loop that a `for` statement stands for.
    fn for_loop(
        initializer: Option<Stmt>,
        condition: Option<Expr>,
        increment: Option<Expr>,
        body: Stmt,
    ) -> (r: Stmt)
        ensures
            r@ == grammar::for_loop(
                optional_stmt_view(initializer),
                optional_expr_view(condition),
                optional_expr_view(increment),
                body@,
            ),
    {
        let ghost body_view = body@;
        let turn = match increment {
            Some(i) => {
                let step = Stmt::Expression(i);
                let ghost step_view = step@;
                let mut statements: Vec<Stmt> = Vec::new();
                statements.push(body);
                statements.push(step);
                assert(Stmt::models(statements@) =~= seq![body_view, step_view]);
                Stmt::Block(StmtBlock::new(statements))
            },
            None => body,
        };
        let ghost turn_view = turn@;
        let test = match condition {
            Some(c) => c,
            None => Expr::Literal(ExprLiteral::new(Literal::Boolean(true))),
        };
        let repeated = Stmt::While(StmtWhile::new(test, turn));
        let ghost repeated_view = repeated@;
        assert(repeated_view == StmtView::While { condition: test@, body: Box::new(turn_view) });
        match initializer {
            Some(i) => {
                let ghost first_view = i@;
                let mut statements: Vec<Stmt> = Vec::new();
                statements.push(i);
                statements.push(repeated);
                assert(Stmt::models(statements@) =~= seq![first_view, repeated_view]);
                Stmt::Block(StmtBlock::new(statements))
            },
            None => repeated,
        }
    }

    /// Reads a condition in parentheses.
    fn condition(&mut self, open_message: &str, close_message: &str) -> (r: Result<
        Expr,
        ParseError,
    >)
        requires
            old(self).well_formed(),
        ensures
            Self::yields(
                *old(self),
                *final(self),
                r,
                grammar::condition(
                    old(self).input(),
                    old(self).current as int,
                    open_message@,
                    close_message@,
                ),
            ),
        decreases old(self).tokens@.len() - old(self).current, 47nat,
    {
        match self.consume(TokenType::LeftParen, open_message) {
            Ok(_) => {},
            Err(e) => {
                return Err(e);
            },
        }
        let condition = match self.expression() {
            Ok(e) => e,
            Err(e) => {
                return Err(e);
            },
        };
        match self.consume(TokenType::RightParen, close_message) {
            Ok(_) => Ok(condition),
            Err(e) => Err(e),
        }
    }

    /// Reads a `while` statement after its `while`.
    fn while_statement(&mut self) -> (r: Result<Stmt, ParseError>)
        requires
            old(self).well_formed(),
        ensures
            Self::recovers(
                *old(self),
                *final(self),
                r,
                grammar::while_statement(
                    old(self).input(),
                    old(self).current as int,
                    old(self).recorded(),
                ),
            ),
        decreases old(self).tokens@.len() - old(self).current, 80nat,
    {
        let condition = match self.condition(
            "Expect '(' after 'while'.",
            "Expect ')' after condition.",
        ) {
            Ok(e) => e,
            Err(e) => {
                return Err(e);
            },
        };
        match self.statement() {
            Ok(body) => Ok(Stmt::While(StmtWhile::new(condition, body))),
            Err(e) => Err(e),
        }
    }

    /// Reads an `if` statement after its `if`.
    fn if_statement(&mut self) -> (r: Result<Stmt, ParseError>)
        requires
            old(self).well_formed(),
        ensures
            Self::recovers(
                *old(self),
                *final(self),
                r,
                grammar::if_statement(old(self).input(), old(self).current as int, old(self).recorded()),
            ),
        decreases old(self).tokens@.len() - old(self).current, 80nat,
    {
        let condition = match self.condition("Expect '(' after 'if'.", "Expect ')' after 'if'.") {
            Ok(e) => e,
            Err(e) => {
                return Err(e);
            },
        };
        let then_branch = match self.statement() {
            Ok(s) => s,
            Err(e) => {
                return Err(e);
            },
        };
        if self.match_token(TokenType::Else) {
            return match self.statement() {
                Ok(s) => Ok(Stmt::If(StmtIf::new(condition, then_branch, Some(s)))),
                Err(e) => Err(e),
            };
        }
        Ok(Stmt::If(StmtIf::new(condition, then_branch, None)))
    }

    /// Reads a `print` statement after its `print`.
    fn print_statement(&mut self) -> (r: Result<Stmt, ParseError>)
        requires
            old(self).well_formed(),
        ensures
            Self::yields(
                *old(self),
                *final(self),
                r,
                grammar::print_statement(old(self).input(), old(self).current as int),
            ),
        decreases old(self).tokens@.len() - old(self).current, 47nat,
    {
        let value = match self.expression() {
            Ok(e) => e,
            Err(e) => {
                return Err(e);
            },
        };
        match self.consume(TokenType::Semicolon, "Expect ';' after value.") {
            Ok(_) => Ok(Stmt::Print(value)),
            Err(e) => Err(e),
        }
    }

    /// Reads a `return` statement after its `return`, the token
    /// `keyword`.
    fn return_statement(&mut self, keyword: Token) -> (r: Result<Stmt, ParseError>)
        requires
            old(self).well_formed(),
        ensures
            Self::yields(
                *old(self),
                *final(self),
                r,
                grammar::return_statement(old(self).input(), old(self).current as int, keyword@),
            ),
        decreases old(self).tokens@.len() - old(self).current, 48nat,
    {
        match self.optional_clause(TokenType::Semicolon, "Expect ';' after return value.") {
            Ok(value) => Ok(Stmt::Return(StmtReturn::new(keyword, value))),
            Err(e) => Err(e),
        }
    }

    /// Reads the declarations of a block and its closing brace.
    fn block(&mut self) -> (r: Result<Vec<Stmt>, ParseError>)
        requires
            old(self).well_formed(),
        ensures
            Self::moved(
                *old(self),
                *final(self),
                grammar::block(
                    old(self).input(),
                    old(self).current as int,
                    old(self).recorded(),
                ).consumed,
                grammar::block(
                    old(self).input(),
                    old(self).current as int,
                    old(self).recorded(),
                ).errors,
            ),
            match grammar::block(
                old(self).input(),
                old(self).current as int,
                old(self).recorded(),
            ).result {
                Ok(statements) => r matches Ok(list) && Stmt::models(list@) == statements,
                Err(e) => r matches Err(x) && x@ == e,
            },
        decreases old(self).tokens@.len() - old(self).current, 71nat,
    {
        let mut statements: Vec<Stmt> = Vec::new();
        let ghost whole = grammar::block(
            old(self).input(),
            old(self).current as int,
            old(self).recorded(),
        );
        assert(Stmt::models(statements@) =~= Seq::empty());
        while !self.is_at_end() && !self.check(TokenType::RightBrace)
            invariant
                self.tokens == old(self).tokens,
                self.well_formed(),
                self.current >= old(self).current,
                grammar::block_rest(
                    self.input(),
                    self.current as int,
                    Stmt::models(statements@),
                    (self.current - old(self).current) as nat,
                    self.recorded(),
                ) == whole,
            decreases self.tokens@.len() - self.current,
        {
            proof {
                grammar::lemma_block_goes_on(
                    self.input(),
                    self.current as int,
                    Stmt::models(statements@),
                    (self.current - old(self).current) as nat,
                    self.recorded(),
                );
            }
            self.declaration_into(&mut statements);
        }
        match self.consume(TokenType::RightBrace, "Expect '}' after block.") {
            Ok(_) => Ok(statements),
            Err(e) => Err(e),
        }
    }

    /// Reads an expression statement.
    fn expression_statement(&mut self) -> (r: Result<Stmt, ParseError>)
        requires
            old(self).well_formed(),
        ensures
            Self::yields(
                *old(self),
                *final(self),
                r,
                grammar::expression_statement(old(self).input(), old(self).current as int),
            ),
            r is Ok ==> final(self).current > old(self).current,
        decreases old(self).tokens@.len() - old(self).current, 45nat,
    {
        let expr = match self.expression() {
            Ok(e) => e,
            Err(e) => {
                return Err(e);
            },
        };
        match self.consume(TokenType::Semicolon, "Expect ';' after expression.") {
            Ok(_) => Ok(Stmt::Expression(expr)),
            Err(e) => Err(e),
        }
    }

    /// Reads the declarations up to the end token and returns those that
    /// could be read, in order. The errors of the others are added to
    /// `errors`. The parser is left at the end token.
    pub fn parse(&mut self) -> (r: Vec<Stmt>)
        requires
            old(self).well_formed(),
        ensures
            final(self).tokens == old(self).tokens,
            final(self).well_formed(),
            final(self).current >= old(self).current,
            grammar::at_end(final(self).input(), final(self).current as int),
            Stmt::models(r@) == grammar::program_rest(
                old(self).input(),
                old(self).current as int,
                Seq::empty(),
                old(self).recorded(),
            ).statements,
            final(self).recorded() == grammar::program_rest(
                old(self).input(),
                old(self).current as int,
                Seq::empty(),
                old(self).recorded(),
            ).errors,
    {
        let mut statements: Vec<Stmt> = Vec::new();
        let ghost whole = grammar::program_rest(
            old(self).input(),
            old(self).current as int,
            Seq::empty(),
            old(self).recorded(),
        );
        assert(Stmt::models(statements@) =~= Seq::empty());
        while !self.is_at_end()
            invariant
                self.tokens == old(self).tokens,
                self.well_formed(),
                self.current >= old(self).current,
                grammar::program_rest(
                    self.input(),
                    self.current as int,
                    Stmt::models(statements@),
                    self.recorded(),
                ) == whole,
            decreases self.tokens@.len() - self.current,
        {
            proof {
                grammar::lemma_program_step(
                    self.input(),
                    self.current as int,
                    Stmt::models(statements@),
                    self.recorded(),
                );
            }
            self.declaration_into(&mut statements);
        }
        statements
    }
}

/// Scans and parses a source text: the declarations that could be read
/// and the errors of those that could not, or the error that scanning met.
pub fn parse_source(source: &str) -> (r: Result<(Vec<Stmt>, Vec<ParseError>), ScanError>)
    ensures
        match scan(source@) {
            Ok(tokens) => r matches Ok(parsed) && Stmt::models(parsed.0@) == grammar::program(
                tokens,
            ).statements && parse_error_views(parsed.1@) == grammar::program(tokens).errors,
            Err(e) => r == Err::<(Vec<Stmt>, Vec<ParseError>), ScanError>(e),
        },
{
    let tokens = match scan_source(source) {
        Ok(t) => t,
        Err(e) => {
            return Err(e);
        },
    };
    proof {
        lemma_scan_ends(source@, 0, 1, Seq::empty());
    }
    let mut parser = Parser::new(tokens);
    assert(parser.recorded() =~= Seq::empty());
    let statements = parser.parse();
    Ok((statements, parser.errors))
}

/// Whether a token of the given kind begins a declaration.
pub fn begins_declaration(token_type: TokenType) -> (r: bool)
    ensures
        r == grammar::begins_declaration(token_type),
{
    match token_type {
        TokenType::Class
        | TokenType::Fun
        | TokenType::Var
        | TokenType::For
        | TokenType::If
        | TokenType::While
        | TokenType::Print
        | TokenType::Return => true,
        _ => false,
    }
}

} // verus!
