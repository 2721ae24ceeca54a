//! Expressions: the value-producing part of the syntax tree.

use vstd::prelude::*;
use crate::token::{Literal, LiteralView, Token, TokenView};

verus! {

/// An expression. Each node owns its operands.
#[derive(Debug, PartialEq)]
pub enum Expr {
    Assign(ExprAssign),
    Binary(ExprBinary),
    Call(ExprCall),
    Grouping(ExprGrouping),
    Literal(ExprLiteral),
    Logical(ExprLogical),
    Unary(ExprUnary),
    Var(ExprVar),
}

/// The mathematical model of an [`Expr`].
pub enum ExprView {
    Assign { name: TokenView, value: Box<ExprView> },
    Binary { left: Box<ExprView>, operator: TokenView, right: Box<ExprView> },
    Call { callee: Box<ExprView>, paren: TokenView, arguments: Seq<ExprView> },
    Grouping { expr: Box<ExprView> },
    Literal { literal: LiteralView },
    Logical { left: Box<ExprView>, operator: TokenView, right: Box<ExprView> },
    Unary { operator: TokenView, right: Box<ExprView> },
    Var { name: TokenView },
}

impl Expr {
    /// The model of an expression: the same tree over sequences.
    pub open spec fn model(self) -> ExprView
        decreases self,
    {
        match self {
            Expr::Assign(e) => ExprView::Assign { name: e.name@, value: Box::new(e.value.model()) },
            Expr::Binary(e) => ExprView::Binary {
                left: Box::new(e.left.model()),
                operator: e.operator@,
                right: Box::new(e.right.model()),
            },
            Expr::Call(e) => ExprView::Call {
                callee: Box::new(e.callee.model()),
                paren: e.paren@,
                arguments: Self::models(e.arguments@),
            },
            Expr::Grouping(e) => ExprView::Grouping { expr: Box::new(e.expr.model()) },
            Expr::Literal(e) => ExprView::Literal { literal: e.literal@ },
            Expr::Logical(e) => ExprView::Logical {
                left: Box::new(e.left.model()),
                operator: e.operator@,
                right: Box::new(e.right.model()),
            },
            Expr::Unary(e) => ExprView::Unary {
                operator: e.operator@,
                right: Box::new(e.right.model()),
            },
            Expr::Var(e) => ExprView::Var { name: e.name@ },
        }
    }

    /// The models of a sequence of expressions, in order.
    pub open spec fn models(exprs: Seq<Expr>) -> Seq<ExprView>
        decreases exprs,
    {
        Seq::new(
            exprs.len(),
            |i: int|
                if 0 <= i < exprs.len() {
                    exprs[i].model()
                } else {
                    arbitrary()
                },
        )
    }
}

impl View for Expr {
    type V = ExprView;

    open spec fn view(&self) -> ExprView {
        self.model()
    }
}

/// An assignment to a variable.
#[derive(Debug, PartialEq)]
pub struct ExprAssign {
    pub name: Token,
    pub value: Box<Expr>,
}

impl ExprAssign {
    pub fn new(name: Token, value: Expr) -> (r: Self)
        ensures
            r.name == name,
            *r.value == value,
    {
        Self { name, value: Box::new(value) }
    }
}

/// An arithmetic, comparison or equality operation on two operands.
#[derive(Debug, PartialEq)]
pub struct ExprBinary {
    pub left: Box<Expr>,
    pub operator: Token,
    pub right: Box<Expr>,
}

impl ExprBinary {
    pub fn new(left_expr: Expr, token: Token, right_expr: Expr) -> (r: Self)
        ensures
            *r.left == left_expr,
            r.operator == token,
            *r.right == right_expr,
    {
        Self { left: Box::new(left_expr), operator: token, right: Box::new(right_expr) }
    }
}

/// A call: the callee, the closing parenthesis (kept for its line) and
/// the arguments.
#[derive(Debug, PartialEq)]
pub struct ExprCall {
    pub callee: Box<Expr>,
    pub paren: Token,
    pub arguments: Vec<Expr>,
}

impl ExprCall {
    pub fn new(callee: Expr, paren: Token, arguments: Vec<Expr>) -> (r: Self)
        ensures
            *r.callee == callee,
            r.paren == paren,
            r.arguments == arguments,
    {
        Self { callee: Box::new(callee), paren, arguments }
    }
}

/// A parenthesised expression.
#[derive(Debug, PartialEq)]
pub struct ExprGrouping {
    pub expr: Box<Expr>,
}

impl ExprGrouping {
    pub fn new(expr: Expr) -> (r: Self)
        ensures
            *r.expr == expr,
    {
        Self { expr: Box::new(expr) }
    }
}

/// A literal value.
#[derive(Debug, PartialEq)]
pub struct ExprLiteral {
    pub literal: Literal,
}

impl ExprLiteral {
    pub fn new(literal: Literal) -> (r: Self)
        ensures
            r.literal == literal,
    {
        Self { literal }
    }
}

/// A short-circuit `and` or `or`.
#[derive(Debug, PartialEq)]
pub struct ExprLogical {
    pub left: Box<Expr>,
    pub operator: Token,
    pub right: Box<Expr>,
}

impl ExprLogical {
    pub fn new(left: Expr, operator: Token, right: Expr) -> (r: Self)
        ensures
            *r.left == left,
            r.operator == operator,
            *r.right == right,
    {
        Self { left: Box::new(left), operator, right: Box::new(right) }
    }
}

/// A negation or logical not.
#[derive(Debug, PartialEq)]
pub struct ExprUnary {
    pub operator: Token,
    pub right: Box<Expr>,
}

impl ExprUnary {
    pub fn new(token: Token, right_expr: Expr) -> (r: Self)
        ensures
            r.operator == token,
            *r.right == right_expr,
    {
        Self { operator: token, right: Box::new(right_expr) }
    }
}

/// A reference to a variable.
#[derive(Debug, PartialEq)]
pub struct ExprVar {
    pub name: Token,
}

impl ExprVar {
    pub fn new(name: Token) -> (r: Self)
        ensures
            r.name == name,
    {
        Self { name }
    }
}

} // verus!
