//! The errors of parsing and of evaluation.

use vstd::prelude::*;
use crate::token::{Token, TokenType, TokenView};
use crate::value::{Evaluation, EvaluationView};

verus! {

/// Why a declaration could not be parsed. Each error carries the token at
/// which it was found.
#[derive(Debug, PartialEq)]
pub enum ParseError {
    /// The source could not be read.
    IoFail { err: String },
    /// The tokens ended where more were expected.
    ParseEOF { token: Token },
    /// A call with more than 255 arguments.
    ArgumentsOverflow { token: Token },
    /// A function with more than 255 parameters.
    ParametersOverflow { token: Token },
    /// An assignment whose left-hand side is not a variable.
    InvalidAssignmentTarget { token: Token },
    /// Any other token that the grammar does not allow in its place.
    ParseFail { token: Token, message: String },
}

/// The mathematical model of a [`ParseError`].
pub enum ParseErrorView {
    IoFail { err: Seq<char> },
    ParseEOF { token: TokenView },
    ArgumentsOverflow { token: TokenView },
    ParametersOverflow { token: TokenView },
    InvalidAssignmentTarget { token: TokenView },
    ParseFail { token: TokenView, message: Seq<char> },
}

impl View for ParseError {
    type V = ParseErrorView;

    open spec fn view(&self) -> ParseErrorView {
        match self {
            ParseError::IoFail { err } => ParseErrorView::IoFail { err: err@ },
            ParseError::ParseEOF { token } => ParseErrorView::ParseEOF { token: token@ },
            ParseError::ArgumentsOverflow { token } => ParseErrorView::ArgumentsOverflow {
                token: token@,
            },
            ParseError::ParametersOverflow { token } => ParseErrorView::ParametersOverflow {
                token: token@,
            },
            ParseError::InvalidAssignmentTarget { token } => ParseErrorView::InvalidAssignmentTarget {
                token: token@,
            },
            ParseError::ParseFail { token, message } => ParseErrorView::ParseFail {
                token: token@,
                message: message@,
            },
        }
    }
}

/// The models of a sequence of parse errors, in order.
pub open spec fn parse_error_views(errors: Seq<ParseError>) -> Seq<ParseErrorView> {
    Seq::new(errors.len(), |i: int| errors[i]@)
}

/// Why evaluation stopped.
#[derive(Debug, PartialEq)]
pub enum InterpretError<'a> {
    /// A failure described by its message: a wrong number of arguments, a
    /// division by zero, an exhausted budget.
    RuntimeError { err: String },
    /// A name that no enclosing scope binds.
    UndefinedVariable { lexeme: String },
    /// A value of one kind where another was needed.
    CastError { expect: String, actual: String },
    /// An operator that is none of the operators of its kind.
    IncorrectOperandType { operand_type: TokenType },
    /// `+` on operands that are neither two texts nor two numbers.
    EvaluationAddOverloaderError { lhs: Evaluation<'a>, rhs: Evaluation<'a> },
    /// A unary operator on an operand that it does not take.
    EvaluateUnaryFail { right_evaluation: Evaluation<'a>, operator_type: TokenType },
    /// A binary operator on operands that it does not take.
    EvaluateBinaryFail {
        left_evaluation: Evaluation<'a>,
        operator_type: TokenType,
        right_evaluation: Evaluation<'a>,
    },
}

/// The mathematical model of an [`InterpretError`].
pub enum InterpretErrorView {
    RuntimeError { err: Seq<char> },
    UndefinedVariable { lexeme: Seq<char> },
    CastError { expect: Seq<char>, actual: Seq<char> },
    IncorrectOperandType { operand_type: TokenType },
    EvaluationAddOverloaderError { lhs: EvaluationView, rhs: EvaluationView },
    EvaluateUnaryFail { right_evaluation: EvaluationView, operator_type: TokenType },
    EvaluateBinaryFail {
        left_evaluation: EvaluationView,
        operator_type: TokenType,
        right_evaluation: EvaluationView,
    },
}

impl<'a> View for InterpretError<'a> {
    type V = InterpretErrorView;

    open spec fn view(&self) -> InterpretErrorView {
        match self {
            InterpretError::RuntimeError { err } => InterpretErrorView::RuntimeError { err: err@ },
            InterpretError::UndefinedVariable { lexeme } => InterpretErrorView::UndefinedVariable {
                lexeme: lexeme@,
            },
            InterpretError::CastError { expect, actual } => InterpretErrorView::CastError {
                expect: expect@,
                actual: actual@,
            },
            InterpretError::IncorrectOperandType {
                operand_type,
            } => InterpretErrorView::IncorrectOperandType { operand_type: *operand_type },
            InterpretError::EvaluationAddOverloaderError {
                lhs,
                rhs,
            } => InterpretErrorView::EvaluationAddOverloaderError { lhs: lhs@, rhs: rhs@ },
            InterpretError::EvaluateUnaryFail {
                right_evaluation,
                operator_type,
            } => InterpretErrorView::EvaluateUnaryFail {
                right_evaluation: right_evaluation@,
                operator_type: *operator_type,
            },
            InterpretError::EvaluateBinaryFail {
                left_evaluation,
                operator_type,
                right_evaluation,
            } => InterpretErrorView::EvaluateBinaryFail {
                left_evaluation: left_evaluation@,
                operator_type: *operator_type,
                right_evaluation: right_evaluation@,
            },
        }
    }
}

} // verus!
