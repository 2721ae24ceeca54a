//! Statements: the effectful part of the syntax tree.

use vstd::prelude::*;
use crate::expr::{Expr, ExprView};
use crate::token::{Token, TokenView, token_views};

verus! {

/// A statement. Each node owns its parts.
#[derive(Debug, PartialEq)]
pub enum Stmt {
    Block(StmtBlock),
    Expression(Expr),
    Print(Expr),
    Return(StmtReturn),
    Var(StmtVar),
    While(StmtWhile),
    If(StmtIf),
    Function(StmtFunction),
}

/// The mathematical model of a [`Stmt`].
pub enum StmtView {
    Block { statements: Seq<StmtView> },
    Expression { expr: ExprView },
    Print { expr: ExprView },
    Return { keyword: TokenView, value: Option<ExprView> },
    Var { name: TokenView, initializer: Option<ExprView> },
    While { condition: ExprView, body: Box<StmtView> },
    If { condition: ExprView, then_branch: Box<StmtView>, else_branch: Option<Box<StmtView>> },
    Function { declaration: FunctionView },
}

/// The mathematical model of a [`StmtFunction`].
pub struct FunctionView {
    pub name: TokenView,
    pub params: Seq<TokenView>,
    pub body: Seq<StmtView>,
}

/// The model of an optional expression.
pub open spec fn optional_expr_view(expr: Option<Expr>) -> Option<ExprView> {
    match expr {
        Some(e) => Some(e@),
        None => None,
    }
}

/// The model of an optional statement.
pub open spec fn optional_stmt_view(stmt: Option<Stmt>) -> Option<StmtView> {
    match stmt {
        Some(s) => Some(s@),
        None => None,
    }
}

impl Stmt {
    /// The model of a statement: the same tree over sequences.
    pub open spec fn model(self) -> StmtView
        decreases self,
    {
        match self {
            Stmt::Block(s) => StmtView::Block { statements: Self::models(s.statements@) },
            Stmt::Expression(e) => StmtView::Expression { expr: e@ },
            Stmt::Print(e) => StmtView::Print { expr: e@ },
            Stmt::Return(s) => StmtView::Return {
                keyword: s.keyword@,
                value: optional_expr_view(s.value),
            },
            Stmt::Var(s) => StmtView::Var {
                name: s.name@,
                initializer: optional_expr_view(s.initializer),
            },
            Stmt::While(s) => StmtView::While {
                condition: s.condition@,
                body: Box::new(s.body.model()),
            },
            Stmt::If(s) => StmtView::If {
                condition: s.condition@,
                then_branch: Box::new(s.then_branch.model()),
                else_branch: match s.else_branch {
                    Some(e) => Some(Box::new(e.model())),
                    None => None,
                },
            },
            Stmt::Function(s) => StmtView::Function {
                declaration: FunctionView {
                    name: s.name@,
                    params: token_views(s.params@),
                    body: Self::models(s.body@),
                },
            },
        }
    }

    /// The models of a sequence of statements, in order.
    pub open spec fn models(statements: Seq<Stmt>) -> Seq<StmtView>
        decreases statements,
    {
        Seq::new(
            statements.len(),
            |i: int|
                if 0 <= i < statements.len() {
                    statements[i].model()
                } else {
                    arbitrary()
                },
        )
    }
}

impl View for Stmt {
    type V = StmtView;

    open spec fn view(&self) -> StmtView {
        self.model()
    }
}

/// A brace-delimited sequence of statements with a scope of its own.
#[derive(Debug, PartialEq)]
pub struct StmtBlock {
    pub statements: Vec<Stmt>,
}

impl StmtBlock {
    pub fn new(statements: Vec<Stmt>) -> (r: Self)
        ensures
            r.statements == statements,
    {
        Self { statements }
    }
}

/// A loop that runs its body while its condition holds.
#[derive(Debug, PartialEq)]
pub struct StmtWhile {
    pub condition: Expr,
    pub body: Box<Stmt>,
}

impl StmtWhile {
    pub fn new(condition: Expr, body: Stmt) -> (r: Self)
        ensures
            r.condition == condition,
            *r.body == body,
    {
        Self { condition, body: Box::new(body) }
    }
}

/// A return from the enclosing function, with or without a value.
#[derive(Debug, PartialEq)]
pub struct StmtReturn {
    pub keyword: Token,
    pub value: Option<Expr>,
}

impl StmtReturn {
    pub fn new(keyword: Token, value: Option<Expr>) -> (r: Self)
        ensures
            r.keyword == keyword,
            r.value == value,
    {
        Self { keyword, value }
    }
}

/// A variable declaration, with or without an initializer.
#[derive(Debug, PartialEq)]
pub struct StmtVar {
    pub name: Token,
    pub initializer: Option<Expr>,
}

impl StmtVar {
    pub fn new(name: Token, initializer: Option<Expr>) -> (r: Self)
        ensures
            r.name == name,
            r.initializer == initializer,
    {
        Self { name, initializer }
    }
}

/// A conditional, with or without an else branch.
#[derive(Debug, PartialEq)]
pub struct StmtIf {
    pub condition: Expr,
    pub then_branch: Box<Stmt>,
    pub else_branch: Option<Box<Stmt>>,
}

impl StmtIf {
    pub fn new(condition: Expr, then_branch: Stmt, else_branch: Option<Stmt>) -> (r: Self)
        ensures
            r.condition == condition,
            *r.then_branch == then_branch,
            match else_branch {
                Some(s) => r.else_branch == Some(Box::new(s)),
                None => r.else_branch is None,
            },
    {
        Self {
            condition,
            then_branch: Box::new(then_branch),
            else_branch: match else_branch {
                Some(s) => Some(Box::new(s)),
                None => None,
            },
        }
    }
}

/// A function declaration: its name, its parameters and its body.
#[derive(Debug, PartialEq)]
pub struct StmtFunction {
    pub name: Token,
    pub params: Vec<Token>,
    pub body: Vec<Stmt>,
}

impl StmtFunction {
    pub fn new(name: Token, params: Vec<Token>, body: Vec<Stmt>) -> (r: Self)
        ensures
            r.name == name,
            r.params == params,
            r.body == body,
    {
        Self { name, params, body }
    }
}

impl View for StmtFunction {
    type V = FunctionView;

    open spec fn view(&self) -> FunctionView {
        FunctionView {
            name: self.name@,
            params: token_views(self.params@),
            body: Stmt::models(self.body@),
        }
    }
}

} // verus!
