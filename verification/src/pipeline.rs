//! The law of the whole pipeline: what scanning, parsing and running the
//! statement that prints a numeric literal yields.

use vstd::prelude::*;
use crate::errors::InterpretErrorView;
use crate::expr::ExprView;
use crate::grammar;
use crate::grammar::{Level, Parsed, Program};
use crate::number::{is_digit, Number};
use crate::reserved::keyword_of;
use crate::scanner::{
    digits_end,
    end_token,
    has_fraction,
    number_step,
    scan,
    scan_from,
    scan_step,
    word_end,
    word_step,
    ScanError,
};
use crate::semantics::{evaluate, execute, interpret, InterpreterView};
use crate::stmt::StmtView;
use crate::text::{alphabetic, alphanumeric};
use crate::token::{LiteralView, TokenType, TokenView};
use crate::value::EvaluationView;

verus! {

/// Whether every character of `s` is a digit.
pub open spec fn all_digits(s: Seq<char>) -> bool {
    forall|i: int| 0 <= i < s.len() ==> is_digit(#[trigger] s[i])
}

/// The text of the numeric literal with the digits `whole` before the
/// decimal point and, unless it is empty, `fraction` after it.
pub open spec fn literal_text(whole: Seq<char>, fraction: Seq<char>) -> Seq<char> {
    if fraction.len() == 0 {
        whole
    } else {
        whole + seq!['.'] + fraction
    }
}

/// The source text `print ` followed by `text` and a semicolon.
pub open spec fn print_source(text: Seq<char>) -> Seq<char> {
    seq!['p', 'r', 'i', 'n', 't', ' '] + text + seq![';']
}

/// The tokens of the statement that prints the numeric literal `text`,
/// whose value is `n`.
pub open spec fn print_tokens(text: Seq<char>, n: Number) -> Seq<TokenView> {
    seq![
        print_token(),
        TokenView {
            token_type: TokenType::Number,
            lexeme: text,
            literal: Some(LiteralView::Number(n)),
            line: 1,
        },
        TokenView { token_type: TokenType::Semicolon, lexeme: seq![';'], literal: None, line: 1 },
        end_token(1),
    ]
}

/// The statement that prints the number `n`.
pub open spec fn print_number(n: Number) -> StmtView {
    StmtView::Print { expr: ExprView::Literal { literal: LiteralView::Number(n) } }
}

/// A run of `count` digits that no digit follows ends after `count`
/// characters.
pub proof fn lemma_digits_run(src: Seq<char>, pos: int, count: nat)
    requires
        0 <= pos,
        pos + count <= src.len(),
        forall|j: int| pos <= j < pos + count ==> is_digit(#[trigger] src[j]),
        pos + count == src.len() || !is_digit(src[pos + count]),
    ensures
        digits_end(src, pos) == pos + count,
    decreases count,
{
    if count > 0 {
        lemma_digits_run(src, pos + 1, (count - 1) as nat);
    }
}

/// A run of `count` letters and digits that neither letter nor digit
/// follows ends after `count` characters.
pub proof fn lemma_word_run(src: Seq<char>, pos: int, count: nat)
    requires
        0 <= pos,
        pos + count <= src.len(),
        forall|j: int| pos <= j < pos + count ==> alphanumeric(#[trigger] src[j]),
        pos + count == src.len() || !alphanumeric(src[pos + count]),
    ensures
        word_end(src, pos) == pos + count,
    decreases count,
{
    if count > 0 {
        lemma_word_run(src, pos + 1, (count - 1) as nat);
    }
}

/// The token of the reserved word `print` on the first line.
pub open spec fn print_token() -> TokenView {
    TokenView {
        token_type: TokenType::Print,
        lexeme: seq!['p', 'r', 'i', 'n', 't'],
        literal: None,
        line: 1,
    }
}

/// Whether `print` followed by a blank is one word: `p` is alphabetic,
/// `r`, `i`, `n` and `t` are alphanumeric, and the blank is not. The
/// standard library decides this; the scanner's contracts say nothing of
/// which characters are alphabetic.
pub open spec fn print_is_a_word() -> bool {
    &&& alphabetic('p')
    &&& alphanumeric('r')
    &&& alphanumeric('i')
    &&& alphanumeric('n')
    &&& alphanumeric('t')
    &&& !alphanumeric(' ')
}

/// Where `print` followed by a blank is one word, a source that begins
/// with them is scanned as the token `print` and the tokens of what
/// follows the blank.
#[verifier::rlimit(80)]
pub proof fn lemma_scan_print(src: Seq<char>)
    requires
        print_is_a_word(),
        src.len() >= 6,
        src.subrange(0, 6) == seq!['p', 'r', 'i', 'n', 't', ' '],
    ensures
        scan_from(src, 0, 1, Seq::empty()) == scan_from(src, 6, 1, seq![print_token()]),
{
    let head = seq!['p', 'r', 'i', 'n', 't', ' '];
    assert forall|j: int| 0 <= j < 6 implies src[j] == head[j] by {
        assert(src.subrange(0, 6)[j] == src[j]);
    }
    lemma_word_run(src, 1, 4);
    assert(src.subrange(0, 5) =~= seq!['p', 'r', 'i', 'n', 't']);
    assert(keyword_of(seq!['p', 'r', 'i', 'n', 't']) == Some(TokenType::Print));
    assert(word_step(src, 0, 1) == crate::scanner::Step {
        token: Some(print_token()),
        next: 5,
        line: 1,
    });
    assert(scan_step(src, 0, 1) == Ok::<crate::scanner::Step, ScanError>(word_step(src, 0, 1)));
    let first = seq![print_token()];
    assert(Seq::<TokenView>::empty().push(print_token()) =~= first);
    assert(scan_from(src, 0, 1, Seq::empty()) == scan_from(src, 5, 1, first));
    assert(scan_step(src, 5, 1) == Ok::<crate::scanner::Step, ScanError>(
        crate::scanner::blank_step(6, 1),
    ));
    assert(scan_from(src, 5, 1, first) == scan_from(src, 6, 1, first));
}

/// Where a source holds, from `start` on, the digits `whole`, then, if
/// `fraction` is not empty, a point and the digits `fraction`, and then a
/// semicolon, the scanning step at `start` yields the token of that
/// literal, with the value that the digits denote.
#[verifier::rlimit(80)]
pub proof fn lemma_scan_literal(
    src: Seq<char>,
    start: int,
    line: usize,
    whole: Seq<char>,
    fraction: Seq<char>,
)
    requires
        whole.len() > 0,
        all_digits(whole),
        all_digits(fraction),
        0 <= start,
        start + literal_text(whole, fraction).len() < src.len(),
        src.subrange(start, start + literal_text(whole, fraction).len()) == literal_text(
            whole,
            fraction,
        ),
        src[start + literal_text(whole, fraction).len()] == ';',
    ensures
        scan_step(src, start, line) == Ok::<crate::scanner::Step, ScanError>(
            crate::scanner::Step {
                token: Some(
                    TokenView {
                        token_type: TokenType::Number,
                        lexeme: literal_text(whole, fraction),
                        literal: Some(
                            LiteralView::Number(Number::literal(whole, fraction)),
                        ),
                        line,
                    },
                ),
                next: start + literal_text(whole, fraction).len(),
                line,
            },
        ),
{
    let text = literal_text(whole, fraction);
    let whole_end = start + whole.len();
    let end = start + text.len();
    assert forall|j: int| start <= j < end implies src[j] == text[j - start] by {
        assert(src.subrange(start, end)[j - start] == src[j]);
    }
    assert forall|j: int| start <= j < whole_end implies is_digit(#[trigger] src[j]) by {
        assert(text[j - start] == whole[j - start]);
    }
    assert(is_digit(src[start]));
    if fraction.len() == 0 {
        lemma_digits_run(src, start, whole.len());
        assert(!has_fraction(src, whole_end));
        assert(src.subrange(start, whole_end) =~= whole);
        assert(fraction =~= Seq::<char>::empty());
    } else {
        assert(src[whole_end] == '.') by {
            assert(text[whole.len() as int] == '.');
        }
        assert forall|j: int| whole_end + 1 <= j < end implies is_digit(#[trigger] src[j]) by {
            assert(text[j - start] == fraction[j - start - whole.len() - 1]);
        }
        lemma_digits_run(src, start, whole.len());
        lemma_digits_run(src, whole_end + 1, fraction.len());
        assert(has_fraction(src, whole_end));
        assert(src.subrange(start, whole_end) =~= whole);
        assert(src.subrange(whole_end + 1, end) =~= fraction);
    }
    assert(src.subrange(start, end) =~= text);
    assert(scan_step(src, start, line) == Ok::<crate::scanner::Step, ScanError>(
        number_step(src, start, line),
    ));
}

/// A semicolon at the end of a source is scanned as its token and the end
/// token.
pub proof fn lemma_scan_last_semicolon(src: Seq<char>, pos: int, before: Seq<TokenView>)
    requires
        0 <= pos,
        pos + 1 == src.len(),
        src[pos] == ';',
    ensures
        scan_from(src, pos, 1, before) == Ok::<Seq<TokenView>, ScanError>(
            before.push(
                TokenView {
                    token_type: TokenType::Semicolon,
                    lexeme: seq![';'],
                    literal: None,
                    line: 1,
                },
            ).push(end_token(1)),
        ),
{
    let token = TokenView {
        token_type: TokenType::Semicolon,
        lexeme: seq![';'],
        literal: None,
        line: 1,
    };
    assert(src.subrange(pos, pos + 1) =~= seq![';']);
    assert(scan_step(src, pos, 1) == Ok::<crate::scanner::Step, ScanError>(
        crate::scanner::Step { token: Some(token), next: pos + 1, line: 1 },
    ));
    assert(scan_from(src, pos, 1, before) == scan_from(src, pos + 1, 1, before.push(token)));
}

/// Where `print` followed by a blank is one word, scanning `print`, a
/// numeric literal and a semicolon yields the four tokens of that
/// statement, the literal's token with the value that the digits denote.
#[verifier::rlimit(80)]
pub proof fn lemma_scan_print_number(whole: Seq<char>, fraction: Seq<char>)
    requires
        print_is_a_word(),
        whole.len() > 0,
        all_digits(whole),
        all_digits(fraction),
    ensures
        scan(print_source(literal_text(whole, fraction))) == Ok::<Seq<TokenView>, ScanError>(
            print_tokens(literal_text(whole, fraction), Number::literal(whole, fraction)),
        ),
{
    let text = literal_text(whole, fraction);
    let src = print_source(text);
    let n = Number::literal(whole, fraction);
    let tokens = print_tokens(text, n);
    let end = 6int + text.len();
    assert(src.len() == end + 1);
    assert(src.subrange(0, 6) =~= seq!['p', 'r', 'i', 'n', 't', ' ']);
    assert(src.subrange(6, end) =~= text);
    assert(src[end] == ';');
    lemma_scan_print(src);
    lemma_scan_literal(src, 6, 1, whole, fraction);
    let first = seq![print_token()];
    let second = seq![tokens[0], tokens[1]];
    assert(first.push(tokens[1]) =~= second);
    assert(scan_from(src, 6, 1, first) == scan_from(src, end, 1, second));
    lemma_scan_last_semicolon(src, end, second);
    assert(second.push(tokens[2]).push(end_token(1)) =~= tokens);
}

/// At every level of binary operators, a literal that a semicolon follows
/// is read as the literal alone.
pub proof fn lemma_literal_operand(tokens: Seq<TokenView>, pos: int, level: Level, n: Number)
    requires
        0 <= pos,
        pos + 1 < tokens.len(),
        tokens[pos].token_type == TokenType::Number,
        tokens[pos].literal == Some(LiteralView::Number(n)),
        tokens[pos + 1].token_type == TokenType::Semicolon,
    ensures
        grammar::binary(tokens, pos, level) == (Parsed {
            result: Ok::<ExprView, crate::errors::ParseErrorView>(
                ExprView::Literal { literal: LiteralView::Number(n) },
            ),
            consumed: 1,
        }),
    decreases level.rank(),
{
    let literal = ExprView::Literal { literal: LiteralView::Number(n) };
    let parsed = Parsed {
        result: Ok::<ExprView, crate::errors::ParseErrorView>(literal),
        consumed: 1,
    };
    assert(grammar::primary(tokens, pos) == parsed);
    assert(grammar::call_rest(tokens, pos + 1, literal, 1) == parsed);
    assert(grammar::call(tokens, pos) == parsed);
    assert(grammar::unary(tokens, pos) == parsed);
    match level.tighter() {
        Some(next) => {
            lemma_literal_operand(tokens, pos, next, n);
        },
        None => {},
    }
    assert(grammar::operand(tokens, pos, level) == parsed);
    assert(grammar::binary_rest(tokens, pos + 1, level, literal, 1) == parsed);
}

/// The tokens of `print`, a numeric literal and a semicolon are the
/// program of one statement, which prints the literal's value; no error
/// is recorded.
pub proof fn lemma_parse_print_number(text: Seq<char>, n: Number)
    ensures
        grammar::program(print_tokens(text, n)) == (Program {
            statements: seq![print_number(n)],
            errors: Seq::empty(),
        }),
{
    let tokens = print_tokens(text, n);
    let literal = ExprView::Literal { literal: LiteralView::Number(n) };
    let none = Seq::<crate::errors::ParseErrorView>::empty();
    lemma_literal_operand(tokens, 1, Level::Or, n);
    assert(grammar::assignment(tokens, 1) == grammar::binary(tokens, 1, Level::Or));
    assert(grammar::expression(tokens, 1) == grammar::binary(tokens, 1, Level::Or));
    assert(grammar::print_statement(tokens, 1) == (Parsed {
        result: Ok::<StmtView, crate::errors::ParseErrorView>(print_number(n)),
        consumed: 2,
    }));
    assert(grammar::statement(tokens, 0, none) == (grammar::Recovering {
        result: Ok::<StmtView, crate::errors::ParseErrorView>(print_number(n)),
        consumed: 3,
        errors: none,
    }));
    assert(grammar::declared(tokens, 0, none) == grammar::statement(tokens, 0, none));
    assert(grammar::declaration(tokens, 0, none) == (grammar::Declared {
        statement: Some(print_number(n)),
        consumed: 3,
        errors: none,
    }));
    assert(grammar::program_rest(tokens, 0, Seq::empty(), none) == grammar::program_rest(
        tokens,
        3,
        seq![print_number(n)],
        none,
    )) by {
        assert(Seq::<StmtView>::empty().push(print_number(n)) =~= seq![print_number(n)]);
    }
    assert(grammar::at_end(tokens, 3));
}

/// Running the statement that prints the number `n` adds `n`, rendered
/// with two decimal places, to the output and changes nothing else.
pub proof fn lemma_run_print_number(state: InterpreterView, n: Number, budget: nat)
    requires
        budget >= 2,
    ensures
        interpret(state, seq![print_number(n)], 0, budget) == (
            state.printed(n.rendering()),
            Ok::<(), InterpretErrorView>(()),
        ),
{
    let statements = seq![print_number(n)];
    let literal = ExprView::Literal { literal: LiteralView::Number(n) };
    assert(evaluate(state, literal, (budget - 1) as nat) == (
        state,
        Ok::<EvaluationView, InterpretErrorView>(EvaluationView::Number(n)),
    ));
    assert(execute(state, statements[0], budget) == (
        state.printed(n.rendering()),
        Ok::<Option<EvaluationView>, InterpretErrorView>(None),
    ));
    assert(interpret(state, statements, 0, budget) == interpret(
        state.printed(n.rendering()),
        statements,
        1,
        budget,
    ));
}

/// For every numeric literal, where `print` followed by a blank is one
/// word: scanning the source `print`, the literal and a semicolon, parsing
/// the tokens and running the program records no syntax error, fails with
/// no error and prints one line, the value of the literal with two decimal
/// places.
pub proof fn lemma_print_literal(
    whole: Seq<char>,
    fraction: Seq<char>,
    state: InterpreterView,
    budget: nat,
)
    requires
        print_is_a_word(),
        whole.len() > 0,
        all_digits(whole),
        all_digits(fraction),
        budget >= 2,
    ensures
        scan(print_source(literal_text(whole, fraction))) matches Ok(tokens) && grammar::program(
            tokens,
        ).errors.len() == 0 && interpret(
            state,
            grammar::program(tokens).statements,
            0,
            budget,
        ) == (
            state.printed(Number::literal(whole, fraction).rendering()),
            Ok::<(), InterpretErrorView>(()),
        ),
{
    let n = Number::literal(whole, fraction);
    lemma_scan_print_number(whole, fraction);
    lemma_parse_print_number(literal_text(whole, fraction), n);
    lemma_run_print_number(state, n, budget);
}

} // verus!
