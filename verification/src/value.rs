//! Runtime values: what expressions evaluate to.

use vstd::prelude::*;
use vstd::string::StringExecFns;
use crate::number::Number;
use crate::stmt::{FunctionView, StmtFunction};
use crate::token::{Literal, LiteralView};

verus! {

/// The computations that the host provides to programs.
#[derive(Debug, Clone, Copy, PartialEq, Eq, Structural)]
pub enum Native {
    /// The host's clock reading, in whole seconds.
    Clock,
}

/// A function that the host provides: a name, a fixed arity and the
/// computation.
#[derive(Debug)]
pub struct NativeFunction {
    pub arity: u8,
    pub fn_name: String,
    pub fun: Native,
}

/// The mathematical model of a [`NativeFunction`].
pub struct NativeFunctionView {
    pub arity: u8,
    pub fn_name: Seq<char>,
    pub fun: Native,
}

impl View for NativeFunction {
    type V = NativeFunctionView;

    open spec fn view(&self) -> NativeFunctionView {
        NativeFunctionView { arity: self.arity, fn_name: self.fn_name@, fun: self.fun }
    }
}

impl Clone for NativeFunction {
    fn clone(&self) -> (r: Self)
        ensures
            r == *self,
    {
        NativeFunction { arity: self.arity, fn_name: self.fn_name.clone(), fun: self.fun }
    }
}

impl NativeFunction {
    /// A host function of no parameters.
    pub fn new(fn_name: String, fun: Native) -> (r: Self)
        ensures
            r.arity == 0,
            r.fn_name == fn_name,
            r.fun == fun,
    {
        Self { arity: 0, fn_name, fun }
    }

    /// How many arguments the function takes.
    pub fn arity(&self) -> (r: usize)
        ensures
            r == self.arity,
    {
        self.arity as usize
    }

    /// The name of the function.
    pub fn display(&self) -> (r: String)
        ensures
            r@ == self.fn_name@,
    {
        self.fn_name.clone()
    }
}

/// A function that a program declared: the declaration and the scope in
/// which it was declared, which calls of the function share.
#[derive(Debug, Clone, Copy)]
pub struct RloxFunction<'a> {
    pub declaration: &'a StmtFunction,
    pub closure: usize,
}

impl<'a> RloxFunction<'a> {
    /// The function of `declaration` that closes over the scope `closure`.
    pub fn new(declaration: &'a StmtFunction, closure: usize) -> (r: Self)
        ensures
            r.declaration == declaration,
            r.closure == closure,
    {
        Self { declaration, closure }
    }

    /// How many arguments the function takes: the number of its
    /// parameters.
    pub fn arity(&self) -> (r: usize)
        ensures
            r == self.declaration.params@.len(),
    {
        self.declaration.params.len()
    }

    /// The name of the function.
    pub fn display(&self) -> (r: String)
        ensures
            r@ == self.declaration.name.lexeme@,
    {
        self.declaration.name.lexeme.clone()
    }
}

/// Something that can be called.
#[derive(Debug)]
pub enum Callable<'a> {
    Native(NativeFunction),
    User(RloxFunction<'a>),
}

/// The mathematical model of a [`Callable`].
pub enum CallableView {
    Native(NativeFunctionView),
    User { declaration: FunctionView, closure: usize },
}

impl CallableView {
    /// How many arguments the callable takes.
    pub open spec fn arity(self) -> nat {
        match self {
            CallableView::Native(f) => f.arity as nat,
            CallableView::User { declaration, closure } => declaration.params.len(),
        }
    }

    /// The name of the callable.
    pub open spec fn name(self) -> Seq<char> {
        match self {
            CallableView::Native(f) => f.fn_name,
            CallableView::User { declaration, closure } => declaration.name.lexeme,
        }
    }
}

impl<'a> View for Callable<'a> {
    type V = CallableView;

    open spec fn view(&self) -> CallableView {
        match self {
            Callable::Native(f) => CallableView::Native(f@),
            Callable::User(f) => CallableView::User {
                declaration: f.declaration@,
                closure: f.closure,
            },
        }
    }
}

impl<'a> Clone for Callable<'a> {
    fn clone(&self) -> (r: Self)
        ensures
            r == *self,
    {
        match self {
            Callable::Native(f) => Callable::Native(f.clone()),
            Callable::User(f) => Callable::User(*f),
        }
    }
}

impl<'a> Callable<'a> {
    /// How many arguments the callable takes.
    pub fn arity(&self) -> (r: usize)
        ensures
            r == self@.arity(),
    {
        match self {
            Callable::Native(f) => f.arity(),
            Callable::User(f) => f.arity(),
        }
    }

    /// The name of the callable.
    pub fn display(&self) -> (r: String)
        ensures
            r@ == self@.name(),
    {
        match self {
            Callable::Native(f) => f.display(),
            Callable::User(f) => f.display(),
        }
    }
}

/// A runtime value.
#[derive(Debug)]
pub enum Evaluation<'a> {
    Text(String),
    Number(Number),
    Boolean(bool),
    Nil,
    Callable(Callable<'a>),
}

/// The mathematical model of an [`Evaluation`].
pub enum EvaluationView {
    Text(Seq<char>),
    Number(Number),
    Boolean(bool),
    Nil,
    Callable(CallableView),
}

impl EvaluationView {
    /// The value that a literal denotes.
    pub open spec fn of_literal(literal: LiteralView) -> EvaluationView {
        match literal {
            LiteralView::Text(s) => EvaluationView::Text(s),
            LiteralView::Number(n) => EvaluationView::Number(n),
            LiteralView::Boolean(b) => EvaluationView::Boolean(b),
            LiteralView::Nil => EvaluationView::Nil,
        }
    }

    /// Equality of values: texts, numbers and booleans are equal to their
    /// like with the same content, nil is equal to nil, and nothing else
    /// is equal to anything.
    pub open spec fn equals(self, other: EvaluationView) -> bool {
        match (self, other) {
            (EvaluationView::Text(a), EvaluationView::Text(b)) => a == b,
            (EvaluationView::Number(a), EvaluationView::Number(b)) => a.same(b),
            (EvaluationView::Boolean(a), EvaluationView::Boolean(b)) => a == b,
            (EvaluationView::Nil, EvaluationView::Nil) => true,
            _ => false,
        }
    }

    /// The text that `print` writes for a value: a text as it is, a number
    /// with two decimal places, `true` or `false`, `nil`, and a callable
    /// as `fn <name>`.
    pub open spec fn rendering(self) -> Seq<char> {
        match self {
            EvaluationView::Text(s) => s,
            EvaluationView::Number(n) => n.rendering(),
            EvaluationView::Boolean(b) => if b {
                "true"@
            } else {
                "false"@
            },
            EvaluationView::Nil => "nil"@,
            EvaluationView::Callable(f) => "fn <"@ + f.name() + ">"@,
        }
    }
}

impl<'a> View for Evaluation<'a> {
    type V = EvaluationView;

    open spec fn view(&self) -> EvaluationView {
        match self {
            Evaluation::Text(s) => EvaluationView::Text(s@),
            Evaluation::Number(n) => EvaluationView::Number(*n),
            Evaluation::Boolean(b) => EvaluationView::Boolean(*b),
            Evaluation::Nil => EvaluationView::Nil,
            Evaluation::Callable(f) => EvaluationView::Callable(f@),
        }
    }
}

impl<'a> Clone for Evaluation<'a> {
    fn clone(&self) -> (r: Self)
        ensures
            r == *self,
    {
        match self {
            Evaluation::Text(s) => Evaluation::Text(s.clone()),
            Evaluation::Number(n) => Evaluation::Number(*n),
            Evaluation::Boolean(b) => Evaluation::Boolean(*b),
            Evaluation::Nil => Evaluation::Nil,
            Evaluation::Callable(f) => Evaluation::Callable(f.clone()),
        }
    }
}

impl<'a> Evaluation<'a> {
    /// The value that a literal denotes.
    pub fn from_literal(literal: &Literal) -> (r: Self)
        ensures
            r@ == EvaluationView::of_literal(literal@),
    {
        match literal {
            Literal::Text(s) => Evaluation::Text(s.clone()),
            Literal::Number(n) => Evaluation::Number(*n),
            Literal::Boolean(b) => Evaluation::Boolean(*b),
            Literal::Nil => Evaluation::Nil,
        }
    }

    /// The text that `print` writes for the value.
    pub fn render(&self) -> (r: String)
        ensures
            r@ == self@.rendering(),
    {
        match self {
            Evaluation::Text(s) => s.clone(),
            Evaluation::Number(n) => n.render(),
            Evaluation::Boolean(b) => if *b {
                "true".to_owned()
            } else {
                "false".to_owned()
            },
            Evaluation::Nil => "nil".to_owned(),
            Evaluation::Callable(f) => {
                let mut text = "fn <".to_owned();
                let name = f.display();
                text.append(name.as_str());
                text.append(">");
                text
            },
        }
    }
}

} // verus!
