//! A printer of expressions, for diagnostics: every expression as a
//! parenthesised list of its operator and its operands.

use vstd::prelude::*;
use vstd::string::StringExecFns;
use crate::expr::{Expr, ExprView};
use crate::token::{Literal, LiteralView};

verus! {

impl LiteralView {
    /// The text of a literal: a text as it is, a number with two decimal
    /// places, `true` or `false`, and `null`.
    pub open spec fn rendering(self) -> Seq<char> {
        match self {
            LiteralView::Text(s) => s,
            LiteralView::Number(n) => n.rendering(),
            LiteralView::Boolean(b) => if b {
                "true"@
            } else {
                "false"@
            },
            LiteralView::Nil => "null"@,
        }
    }
}

impl Literal {
    /// The text of the literal.
    pub fn render(&self) -> (r: String)
        ensures
            r@ == self@.rendering(),
    {
        match self {
            Literal::Text(s) => s.clone(),
            Literal::Number(n) => n.render(),
            Literal::Boolean(b) => if *b {
                "true".to_owned()
            } else {
                "false".to_owned()
            },
            Literal::Nil => "null".to_owned(),
        }
    }
}

/// The parts from `from` on, each after a blank.
pub open spec fn spaced(parts: Seq<Seq<char>>, from: int) -> Seq<char>
    decreases parts.len() - from,
{
    if 0 <= from < parts.len() {
        seq![' '] + parts[from] + spaced(parts, from + 1)
    } else {
        Seq::empty()
    }
}

/// `name` and the parts, separated by blanks, in parentheses.
pub open spec fn parenthesized(name: Seq<char>, parts: Seq<Seq<char>>) -> Seq<char> {
    seq!['('] + name + spaced(parts, 0) + seq![')']
}

/// The printed form of an expression.
pub open spec fn printed(expr: ExprView) -> Seq<char>
    decreases expr,
{
    match expr {
        ExprView::Assign { name, value } => parenthesized(
            "="@,
            seq![name.lexeme, printed(*value)],
        ),
        ExprView::Binary { left, operator, right } => parenthesized(
            operator.lexeme,
            seq![printed(*left), printed(*right)],
        ),
        ExprView::Call { callee, paren, arguments } => parenthesized(
            "call"@,
            seq![printed(*callee)] + printed_all(arguments),
        ),
        ExprView::Grouping { expr } => parenthesized("group"@, seq![printed(*expr)]),
        ExprView::Literal { literal } => parenthesized(literal.rendering(), Seq::empty()),
        ExprView::Logical { left, operator, right } => parenthesized(
            operator.lexeme,
            seq![printed(*left), printed(*right)],
        ),
        ExprView::Unary { operator, right } => parenthesized(
            operator.lexeme,
            seq![printed(*right)],
        ),
        ExprView::Var { name } => name.lexeme,
    }
}

/// The printed forms of a sequence of expressions, in order.
pub open spec fn printed_all(exprs: Seq<ExprView>) -> Seq<Seq<char>>
    decreases exprs,
{
    Seq::new(
        exprs.len(),
        |i: int|
            if 0 <= i < exprs.len() {
                printed(exprs[i])
            } else {
                Seq::empty()
            },
    )
}

/// The contents of a sequence of strings, in order.
pub open spec fn contents(parts: Seq<String>) -> Seq<Seq<char>> {
    Seq::new(parts.len(), |i: int| parts[i]@)
}

impl Expr {
    /// `name` and the parts, separated by blanks, in parentheses.
    pub fn parenthesize(name: &str, parts: &Vec<String>) -> (r: String)
        ensures
            r@ == parenthesized(name@, contents(parts@)),
    {
        let mut text = "(".to_owned();
        text.append(name);
        proof {
            reveal_strlit("(");
            reveal_strlit(" ");
            reveal_strlit(")");
        }
        let ghost head = text@;
        let mut tail: String = String::new();
        let mut i: usize = parts.len();
        while i > 0
            invariant
                i <= parts.len(),
                tail@ == spaced(contents(parts@), i as int),
            decreases i,
        {
            i -= 1;
            let mut item = " ".to_owned();
            item.append(parts[i].as_str());
            item.append(tail.as_str());
            proof {
                reveal_strlit(" ");
                assert(item@ =~= seq![' '] + contents(parts@)[i as int] + tail@);
            }
            tail = item;
        }
        text.append(tail.as_str());
        text.append(")");
        assert(text@ =~= parenthesized(name@, contents(parts@)));
        text
    }
}

/// Prints an expression.
pub fn ast_print(expr: &Expr) -> (r: String)
    ensures
        r@ == printed(expr@),
    decreases expr,
{
    let mut parts: Vec<String> = Vec::new();
    match expr {
        Expr::Assign(e) => {
            parts.push(e.name.lexeme.clone());
            parts.push(ast_print(&e.value));
            assert(contents(parts@) =~= seq![e.name@.lexeme, printed(e.value@)]);
            Expr::parenthesize("=", &parts)
        },
        Expr::Binary(e) => {
            parts.push(ast_print(&e.left));
            parts.push(ast_print(&e.right));
            assert(contents(parts@) =~= seq![printed(e.left@), printed(e.right@)]);
            Expr::parenthesize(e.operator.lexeme.as_str(), &parts)
        },
        Expr::Call(e) => {
            parts.push(ast_print(&e.callee));
            let mut i: usize = 0;
            while i < e.arguments.len()
                invariant
                    i <= e.arguments.len(),
                    decreases_to!(expr => e.arguments),
                    contents(parts@) == seq![printed(e.callee@)] + printed_all(
                        Expr::models(e.arguments@),
                    ).take(i as int),
                decreases e.arguments.len() - i,
            {
                let part = ast_print(&e.arguments[i]);
                proof {
                    let all = printed_all(Expr::models(e.arguments@));
                    assert(all.take(i + 1) =~= all.take(i as int).push(all[i as int]));
                    assert(contents(parts@.push(part)) =~= contents(parts@).push(part@));
                }
                parts.push(part);
                i += 1;
            }
            proof {
                let all = printed_all(Expr::models(e.arguments@));
                assert(all.take(i as int) =~= all);
            }
            Expr::parenthesize("call", &parts)
        },
        Expr::Grouping(e) => {
            parts.push(ast_print(&e.expr));
            assert(contents(parts@) =~= seq![printed(e.expr@)]);
            Expr::parenthesize("group", &parts)
        },
        Expr::Literal(e) => {
            assert(contents(parts@) =~= Seq::empty());
            let text = e.literal.render();
            Expr::parenthesize(text.as_str(), &parts)
        },
        Expr::Logical(e) => {
            parts.push(ast_print(&e.left));
            parts.push(ast_print(&e.right));
            assert(contents(parts@) =~= seq![printed(e.left@), printed(e.right@)]);
            Expr::parenthesize(e.operator.lexeme.as_str(), &parts)
        },
        Expr::Unary(e) => {
            parts.push(ast_print(&e.right));
            assert(contents(parts@) =~= seq![printed(e.right@)]);
            Expr::parenthesize(e.operator.lexeme.as_str(), &parts)
        },
        Expr::Var(e) => e.name.lexeme.clone(),
    }
}

} // verus!
