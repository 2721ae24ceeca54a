//! The scanner: source text to tokens.
//!
//! [`scan`] says, as a function of the source text alone, which tokens a
//! source holds or why it holds none; [`Scanner`] computes it in one pass.
//!
//! An identifier or reserved word begins with an alphabetic character
//! and goes on with alphanumeric ones, as the standard library tells them
//! ([`alphabetic`], [`alphanumeric`]). The digits of a numeric literal are
//! `0` to `9`.

use vstd::prelude::*;
use crate::number::{is_digit, Number};
use crate::reserved::{keyword, keyword_of};
use crate::text::{
    alphabetic,
    alphanumeric,
    chars_of,
    is_alphabetic,
    is_alphanumeric,
    slice_of,
    string_from_chars,
};
use crate::token::{Literal, LiteralView, Token, TokenType, TokenView, token_views};

verus! {

/// Why a source text has no tokens.
#[derive(Debug, Clone, Copy, PartialEq, Eq, Structural)]
pub enum ScanError {
    /// A character that begins no token.
    UnexpectedCharacter { character: char, line: usize },
    /// A string literal without its closing quote.
    UnterminatedString { line: usize },
}

/// The first position at or after `pos` that holds no digit.
pub open spec fn digits_end(src: Seq<char>, pos: int) -> int
    decreases src.len() - pos,
{
    if 0 <= pos < src.len() && is_digit(src[pos]) {
        digits_end(src, pos + 1)
    } else {
        pos
    }
}

/// The first position at or after `pos` that holds no alphanumeric
/// character.
pub open spec fn word_end(src: Seq<char>, pos: int) -> int
    decreases src.len() - pos,
{
    if 0 <= pos < src.len() && alphanumeric(src[pos]) {
        word_end(src, pos + 1)
    } else {
        pos
    }
}

/// The first position at or after `pos` that holds `mark`, or the end of
/// the source where there is none.
pub open spec fn position_of(src: Seq<char>, mark: char, pos: int) -> int
    decreases src.len() - pos,
{
    if 0 <= pos < src.len() && src[pos] != mark {
        position_of(src, mark, pos + 1)
    } else {
        pos
    }
}

/// How many line breaks `src` holds from `from` up to, not including, `to`.
pub open spec fn newlines(src: Seq<char>, from: int, to: int) -> nat
    decreases to - from,
{
    if to <= from || to > src.len() || from < 0 {
        0
    } else if src[to - 1] == '\n' {
        newlines(src, from, to - 1) + 1
    } else {
        newlines(src, from, to - 1)
    }
}

/// The line number reached `n` line breaks after `line`. Line numbers stop
/// at the largest machine integer.
pub open spec fn line_after(line: usize, n: nat) -> usize {
    if line + n <= usize::MAX {
        (line + n) as usize
    } else {
        usize::MAX
    }
}

/// What one scanning step yields: a token or nothing (for blanks and
/// comments), the position after the lexeme and the line reached.
pub struct Step {
    pub token: Option<TokenView>,
    pub next: int,
    pub line: usize,
}

/// A step that yields the token of kind `token_type` whose text runs from
/// `pos` to `next`.
pub open spec fn token_step(
    src: Seq<char>,
    pos: int,
    next: int,
    line: usize,
    token_type: TokenType,
    literal: Option<LiteralView>,
) -> Step {
    Step {
        token: Some(TokenView { token_type, lexeme: src.subrange(pos, next), literal, line }),
        next,
        line,
    }
}

/// A step for an operator of one character that, followed by `=`, is the
/// operator `double` and otherwise the operator `single`.
pub open spec fn operator_step(
    src: Seq<char>,
    pos: int,
    line: usize,
    double: TokenType,
    single: TokenType,
) -> Step {
    if pos + 1 < src.len() && src[pos + 1] == '=' {
        token_step(src, pos, pos + 2, line, double, None)
    } else {
        token_step(src, pos, pos + 1, line, single, None)
    }
}

/// The step for a string literal whose opening quote is at `pos`.
pub open spec fn string_step(src: Seq<char>, pos: int, line: usize) -> Result<Step, ScanError> {
    let close = position_of(src, '"', pos + 1);
    let reached = line_after(line, newlines(src, pos + 1, close));
    if close >= src.len() {
        Err(ScanError::UnterminatedString { line: reached })
    } else {
        Ok(
            token_step(
                src,
                pos,
                close + 1,
                reached,
                TokenType::String,
                Some(LiteralView::Text(src.subrange(pos + 1, close))),
            ),
        )
    }
}

/// Whether the digits that end at `whole_end` are followed by a decimal
/// point and at least one more digit.
pub open spec fn has_fraction(src: Seq<char>, whole_end: int) -> bool {
    &&& 0 <= whole_end
    &&& whole_end + 1 < src.len()
    &&& src[whole_end] == '.'
    &&& is_digit(src[whole_end + 1])
}

/// The step for a numeric literal whose first digit is at `pos`.
pub open spec fn number_step(src: Seq<char>, pos: int, line: usize) -> Step {
    let whole_end = digits_end(src, pos);
    let end = if has_fraction(src, whole_end) {
        digits_end(src, whole_end + 1)
    } else {
        whole_end
    };
    let fraction = if has_fraction(src, whole_end) {
        src.subrange(whole_end + 1, end)
    } else {
        Seq::<char>::empty()
    };
    token_step(
        src,
        pos,
        end,
        line,
        TokenType::Number,
        Some(LiteralView::Number(Number::literal(src.subrange(pos, whole_end), fraction))),
    )
}

/// The step for an identifier or reserved word whose first character is
/// at `pos`: the word is that character and the longest run of
/// alphanumeric characters after it. It is a reserved word where it
/// spells one, and an identifier otherwise.
pub open spec fn word_step(src: Seq<char>, pos: int, line: usize) -> Step {
    let end = word_end(src, pos + 1);
    let kind = match keyword_of(src.subrange(pos, end)) {
        Some(k) => k,
        None => TokenType::Identifier,
    };
    token_step(src, pos, end, line, kind, None)
}

/// A step that yields no token.
pub open spec fn blank_step(next: int, line: usize) -> Step {
    Step { token: None, next, line }
}

/// The scanning step at `pos`, which must be a position of `src`.
pub open spec fn scan_step(src: Seq<char>, pos: int, line: usize) -> Result<Step, ScanError> {
    let c = src[pos];
    let one = pos + 1;
    if c == '(' {
        Ok(token_step(src, pos, one, line, TokenType::LeftParen, None))
    } else if c == ')' {
        Ok(token_step(src, pos, one, line, TokenType::RightParen, None))
    } else if c == '{' {
        Ok(token_step(src, pos, one, line, TokenType::LeftBrace, None))
    } else if c == '}' {
        Ok(token_step(src, pos, one, line, TokenType::RightBrace, None))
    } else if c == ',' {
        Ok(token_step(src, pos, one, line, TokenType::Comma, None))
    } else if c == '.' {
        Ok(token_step(src, pos, one, line, TokenType::Dot, None))
    } else if c == '-' {
        Ok(token_step(src, pos, one, line, TokenType::Minus, None))
    } else if c == '+' {
        Ok(token_step(src, pos, one, line, TokenType::Plus, None))
    } else if c == ';' {
        Ok(token_step(src, pos, one, line, TokenType::Semicolon, None))
    } else if c == '*' {
        Ok(token_step(src, pos, one, line, TokenType::Star, None))
    } else if c == '!' {
        Ok(operator_step(src, pos, line, TokenType::BangEqual, TokenType::Bang))
    } else if c == '=' {
        Ok(operator_step(src, pos, line, TokenType::EqualEqual, TokenType::Equal))
    } else if c == '<' {
        Ok(operator_step(src, pos, line, TokenType::LessEqual, TokenType::Less))
    } else if c == '>' {
        Ok(operator_step(src, pos, line, TokenType::GreaterEqual, TokenType::Greater))
    } else if c == '/' {
        if one < src.len() && src[one] == '/' {
            Ok(blank_step(position_of(src, '\n', pos + 2), line))
        } else {
            Ok(token_step(src, pos, one, line, TokenType::Slash, None))
        }
    } else if c == ' ' || c == '\r' || c == '\t' {
        Ok(blank_step(one, line))
    } else if c == '\n' {
        Ok(blank_step(one, line_after(line, 1)))
    } else if c == '"' {
        string_step(src, pos, line)
    } else if is_digit(c) {
        Ok(number_step(src, pos, line))
    } else if alphabetic(c) {
        Ok(word_step(src, pos, line))
    } else {
        Err(ScanError::UnexpectedCharacter { character: c, line })
    }
}

/// The token that ends every token sequence.
pub open spec fn end_token(line: usize) -> TokenView {
    TokenView { token_type: TokenType::EOF, lexeme: seq![' '], literal: None, line }
}

/// The tokens of `src` from `pos` on, after the tokens `before`.
pub open spec fn scan_from(src: Seq<char>, pos: int, line: usize, before: Seq<TokenView>) -> Result<
    Seq<TokenView>,
    ScanError,
>
    decreases src.len() - pos,
    via scan_from_decreases
{
    if pos < 0 || pos >= src.len() {
        Ok(before.push(end_token(line)))
    } else {
        match scan_step(src, pos, line) {
            Err(e) => Err(e),
            Ok(step) => scan_from(
                src,
                step.next,
                step.line,
                match step.token {
                    Some(t) => before.push(t),
                    None => before,
                },
            ),
        }
    }
}

#[via_fn]
proof fn scan_from_decreases(src: Seq<char>, pos: int, line: usize, before: Seq<TokenView>) {
    if 0 <= pos < src.len() {
        lemma_step_advances(src, pos, line);
    }
}

/// The tokens of a source text, ending with the end token, or the first
/// error that scanning meets.
pub open spec fn scan(src: Seq<char>) -> Result<Seq<TokenView>, ScanError> {
    scan_from(src, 0, 1, Seq::empty())
}

/// A run of digits ends at or after its start and within the source.
pub proof fn lemma_digits_end(src: Seq<char>, pos: int)
    requires
        0 <= pos <= src.len(),
    ensures
        pos <= digits_end(src, pos) <= src.len(),
        forall|j: int| pos <= j < digits_end(src, pos) ==> is_digit(#[trigger] src[j]),
        digits_end(src, pos) < src.len() ==> !is_digit(src[digits_end(src, pos)]),
    decreases src.len() - pos,
{
    if pos < src.len() && is_digit(src[pos]) {
        lemma_digits_end(src, pos + 1);
    }
}

/// A run of letters and digits ends at or after its start and within the
/// source.
pub proof fn lemma_word_end(src: Seq<char>, pos: int)
    requires
        0 <= pos <= src.len(),
    ensures
        pos <= word_end(src, pos) <= src.len(),
    decreases src.len() - pos,
{
    if pos < src.len() && alphanumeric(src[pos]) {
        lemma_word_end(src, pos + 1);
    }
}

/// The search for a character ends at or after its start and within the
/// source.
pub proof fn lemma_position_of(src: Seq<char>, mark: char, pos: int)
    requires
        0 <= pos <= src.len(),
    ensures
        pos <= position_of(src, mark, pos) <= src.len(),
    decreases src.len() - pos,
{
    if pos < src.len() && src[pos] != mark {
        lemma_position_of(src, mark, pos + 1);
    }
}

/// Every successful step ends after the position it began at, and within
/// the source.
pub proof fn lemma_step_advances(src: Seq<char>, pos: int, line: usize)
    requires
        0 <= pos < src.len(),
    ensures
        scan_step(src, pos, line) matches Ok(step) ==> pos < step.next <= src.len(),
{
    lemma_position_of(src, '"', pos + 1);
    lemma_digits_end(src, pos + 1);
    lemma_word_end(src, pos + 1);
    if pos + 2 <= src.len() {
        lemma_position_of(src, '\n', pos + 2);
    }
    let whole_end = digits_end(src, pos);
    if has_fraction(src, whole_end) {
        lemma_digits_end(src, whole_end + 1);
    }
}

/// The tokens of a source end with the end token.
pub proof fn lemma_scan_ends(src: Seq<char>, pos: int, line: usize, before: Seq<TokenView>)
    ensures
        scan_from(src, pos, line, before) matches Ok(tokens) ==> tokens.len() > 0
            && tokens.last().token_type == TokenType::EOF,
    decreases src.len() - pos,
{
    if 0 <= pos < src.len() {
        lemma_step_advances(src, pos, line);
        match scan_step(src, pos, line) {
            Ok(step) => {
                lemma_scan_ends(
                    src,
                    step.next,
                    step.line,
                    match step.token {
                        Some(t) => before.push(t),
                        None => before,
                    },
                );
            },
            Err(_) => {},
        }
    }
}

/// The models of a token sequence with one more token are the models of
/// the sequence with the model of that token.
pub proof fn lemma_token_views_push(tokens: Seq<Token>, token: Token)
    ensures
        token_views(tokens.push(token)) == token_views(tokens).push(token@),
{
    assert(token_views(tokens.push(token)) =~= token_views(tokens).push(token@));
}

/// A scanner over one source text.
pub struct Scanner {
    /// The characters of the source text.
    pub source: Vec<char>,
    /// The tokens found so far.
    pub tokens: Vec<Token>,
    /// Where the lexeme being scanned begins.
    pub start: usize,
    /// The next character to read.
    pub current: usize,
    /// The line of the next character to read.
    pub line: usize,
}

impl Scanner {
    /// Whether `after` is `before` one scanning step later, the step
    /// beginning at `before.start`, and `outcome` is what the step
    /// reported.
    pub open spec fn stepped(before: Scanner, after: Scanner, outcome: Result<(), ScanError>) -> bool {
        &&& after.source == before.source
        &&& after.start == before.start
        &&& match scan_step(before.source@, before.start as int, before.line) {
            Ok(step) => {
                &&& outcome is Ok
                &&& after.current == step.next
                &&& after.line == step.line
                &&& token_views(after.tokens@) == match step.token {
                    Some(t) => token_views(before.tokens@).push(t),
                    None => token_views(before.tokens@),
                }
            },
            Err(e) => outcome == Err::<(), ScanError>(e),
        }
    }

    /// A scanner at the beginning of `source`.
    pub fn new(source: String) -> (r: Self)
        ensures
            r.source@ == source@,
            r.tokens@.len() == 0,
            r.start == 0,
            r.current == 0,
            r.line == 1,
    {
        Self { source: chars_of(source.as_str()), tokens: Vec::new(), start: 0, current: 0, line: 1 }
    }

    /// Scans the rest of the source and adds its tokens, the end token
    /// last, to those found so far. The first error ends the scan.
    pub fn scan_tokens(&mut self) -> (r: Result<(), ScanError>)
        ensures
            final(self).source == old(self).source,
            match scan_from(
                old(self).source@,
                old(self).current as int,
                old(self).line,
                token_views(old(self).tokens@),
            ) {
                Ok(tokens) => r is Ok && token_views(final(self).tokens@) == tokens,
                Err(e) => r == Err::<(), ScanError>(e),
            },
    {
        while !self.is_end()
            invariant
                self.source == old(self).source,
                scan_from(
                    self.source@,
                    self.current as int,
                    self.line,
                    token_views(self.tokens@),
                ) == scan_from(
                    old(self).source@,
                    old(self).current as int,
                    old(self).line,
                    token_views(old(self).tokens@),
                ),
            decreases self.source.len() - self.current,
        {
            self.start = self.current;
            proof {
                lemma_step_advances(self.source@, self.current as int, self.line);
            }
            match self.scan_token() {
                Ok(()) => {},
                Err(e) => {
                    return Err(e);
                },
            }
        }
        let ghost before = self.tokens@;
        let end = Token::new(TokenType::EOF, " ".to_owned(), None, self.line);
        proof {
            reveal_strlit(" ");
            assert(end@.lexeme =~= seq![' ']);
            lemma_token_views_push(before, end);
        }
        self.tokens.push(end);
        Ok(())
    }

    /// Scans the one lexeme that begins at `start`.
    fn scan_token(&mut self) -> (r: Result<(), ScanError>)
        requires
            old(self).start < old(self).source.len(),
            old(self).current == old(self).start,
        ensures
            Self::stepped(*old(self), *final(self), r),
    {
        let c = self.advance();
        match c {
            '(' => self.add_token(TokenType::LeftParen, None),
            ')' => self.add_token(TokenType::RightParen, None),
            '{' => self.add_token(TokenType::LeftBrace, None),
            '}' => self.add_token(TokenType::RightBrace, None),
            ',' => self.add_token(TokenType::Comma, None),
            '.' => self.add_token(TokenType::Dot, None),
            '-' => self.add_token(TokenType::Minus, None),
            '+' => self.add_token(TokenType::Plus, None),
            ';' => self.add_token(TokenType::Semicolon, None),
            '*' => self.add_token(TokenType::Star, None),
            '!' => {
                let token_type = if self.match_char('=') {
                    TokenType::BangEqual
                } else {
                    TokenType::Bang
                };
                self.add_token(token_type, None)
            },
            '=' => {
                let token_type = if self.match_char('=') {
                    TokenType::EqualEqual
                } else {
                    TokenType::Equal
                };
                self.add_token(token_type, None)
            },
            '<' => {
                let token_type = if self.match_char('=') {
                    TokenType::LessEqual
                } else {
                    TokenType::Less
                };
                self.add_token(token_type, None)
            },
            '>' => {
                let token_type = if self.match_char('=') {
                    TokenType::GreaterEqual
                } else {
                    TokenType::Greater
                };
                self.add_token(token_type, None)
            },
            '/' => {
                if self.match_char('/') {
                    while self.peek() != '\n' && !self.is_end()
                        invariant
                            self.source == old(self).source,
                            self.start == old(self).start,
                            self.line == old(self).line,
                            self.tokens == old(self).tokens,
                            self.start + 2 <= self.current <= self.source.len(),
                            position_of(self.source@, '\n', self.current as int) == position_of(
                                self.source@,
                                '\n',
                                self.start + 2,
                            ),
                        decreases self.source.len() - self.current,
                    {
                        self.advance();
                    }
                } else {
                    self.add_token(TokenType::Slash, None)
                }
            },
            ' ' => {},
            '\r' => {},
            '\t' => {},
            '\n' => {
                self.next_line();
            },
            '"' => {
                return self.string();
            },
            _ => {
                if is_digit_char(c) {
                    return self.number();
                } else if is_alphabetic(c) {
                    self.identifier()
                } else {
                    return Err(ScanError::UnexpectedCharacter { character: c, line: self.line });
                }
            },
        }
        Ok(())
    }

    /// Whether the whole source has been read.
    fn is_end(&self) -> (r: bool)
        ensures
            r == (self.current >= self.source.len()),
    {
        self.current >= self.source.len()
    }

    /// Reads the next character.
    fn advance(&mut self) -> (c: char)
        requires
            old(self).current < old(self).source.len(),
        ensures
            c == old(self).source@[old(self).current as int],
            *final(self) == (Scanner { current: (old(self).current + 1) as usize, ..*old(self) }),
    {
        let c = self.source[self.current];
        self.current += 1;
        c
    }

    /// Moves on to the next line.
    fn next_line(&mut self)
        ensures
            *final(self) == (Scanner { line: line_after(old(self).line, 1), ..*old(self) }),
    {
        if self.line < usize::MAX {
            self.line += 1;
        }
    }

    /// Adds the token whose text runs from `start` to `current`.
    fn add_token(&mut self, token_type: TokenType, literal: Option<Literal>)
        requires
            old(self).start <= old(self).current <= old(self).source.len(),
        ensures
            final(self).source == old(self).source,
            final(self).start == old(self).start,
            final(self).current == old(self).current,
            final(self).line == old(self).line,
            token_views(final(self).tokens@) == token_views(old(self).tokens@).push(
                TokenView {
                    token_type,
                    lexeme: old(self).source@.subrange(
                        old(self).start as int,
                        old(self).current as int,
                    ),
                    literal: match literal {
                        Some(l) => Some(l@),
                        None => None,
                    },
                    line: old(self).line,
                },
            ),
    {
        let text = slice_of(&self.source, self.start, self.current);
        let token = Token::new(token_type, string_from_chars(&text), literal, self.line);
        proof {
            lemma_token_views_push(self.tokens@, token);
        }
        self.tokens.push(token);
    }

    /// Reads the next character if it is the expected one.
    fn match_char(&mut self, expected_char: char) -> (r: bool)
        requires
            old(self).current <= old(self).source.len(),
        ensures
            r == (old(self).current < old(self).source.len() && old(self).source@[old(
                self,
            ).current as int] == expected_char),
            *final(self) == (Scanner {
                current: if r {
                    (old(self).current + 1) as usize
                } else {
                    old(self).current
                },
                ..*old(self)
            }),
    {
        if self.is_end() {
            return false;
        }
        if self.source[self.current] != expected_char {
            return false;
        }
        self.current += 1;
        true
    }

    /// The next character, or the null character at the end.
    fn peek(&self) -> (c: char)
        ensures
            c == if self.current < self.source.len() {
                self.source@[self.current as int]
            } else {
                '\0'
            },
    {
        if self.is_end() {
            return '\0';
        }
        self.source[self.current]
    }

    /// The character after the next, or the null character at the end.
    fn peek_next(&self) -> (c: char)
        ensures
            c == if self.current + 1 < self.source.len() {
                self.source@[self.current + 1]
            } else {
                '\0'
            },
    {
        if self.current >= self.source.len() || self.current + 1 >= self.source.len() {
            return '\0';
        }
        self.source[self.current + 1]
    }

    /// Scans a string literal whose opening quote has been read.
    fn string(&mut self) -> (r: Result<(), ScanError>)
        requires
            old(self).start < old(self).source.len(),
            old(self).current == old(self).start + 1,
            old(self).source@[old(self).start as int] == '"',
        ensures
            Self::stepped(*old(self), *final(self), r),
    {
        while self.peek() != '"' && !self.is_end()
            invariant
                self.source == old(self).source,
                self.start == old(self).start,
                self.tokens == old(self).tokens,
                self.start + 1 <= self.current <= self.source.len(),
                position_of(self.source@, '"', self.current as int) == position_of(
                    self.source@,
                    '"',
                    self.start + 1,
                ),
                self.line == line_after(
                    old(self).line,
                    newlines(self.source@, self.start + 1, self.current as int),
                ),
            decreases self.source.len() - self.current,
        {
            if self.peek() == '\n' {
                self.next_line();
            }
            self.advance();
        }
        if self.is_end() {
            return Err(ScanError::UnterminatedString { line: self.line });
        }
        self.advance();
        let text = slice_of(&self.source, self.start + 1, self.current - 1);
        self.add_token(TokenType::String, Some(Literal::Text(string_from_chars(&text))));
        Ok(())
    }

    /// Scans a numeric literal whose first digit has been read.
    fn number(&mut self) -> (r: Result<(), ScanError>)
        requires
            old(self).start < old(self).source.len(),
            old(self).current == old(self).start + 1,
            is_digit(old(self).source@[old(self).start as int]),
        ensures
            Self::stepped(*old(self), *final(self), r),
    {
        proof {
            lemma_digits_end(self.source@, self.start as int);
        }
        while is_digit_char(self.peek())
            invariant
                self.source == old(self).source,
                self.start == old(self).start,
                self.tokens == old(self).tokens,
                self.line == old(self).line,
                self.start + 1 <= self.current <= self.source.len(),
                digits_end(self.source@, self.current as int) == digits_end(
                    self.source@,
                    self.start as int,
                ),
            decreases self.source.len() - self.current,
        {
            self.advance();
        }
        let whole_end = self.current;
        let mut fraction: Vec<char> = Vec::new();
        if self.peek() == '.' && is_digit_char(self.peek_next()) {
            self.advance();
            proof {
                lemma_digits_end(self.source@, whole_end + 1);
            }
            while is_digit_char(self.peek())
                invariant
                    self.source == old(self).source,
                    self.start == old(self).start,
                    self.tokens == old(self).tokens,
                    self.line == old(self).line,
                    whole_end + 1 <= self.current <= self.source.len(),
                    digits_end(self.source@, self.current as int) == digits_end(
                        self.source@,
                        whole_end + 1,
                    ),
                decreases self.source.len() - self.current,
            {
                self.advance();
            }
            fraction = slice_of(&self.source, whole_end + 1, self.current);
        }
        let whole = slice_of(&self.source, self.start, whole_end);
        let value = Number::from_digits(&whole, &fraction);
        self.add_token(TokenType::Number, Some(Literal::Number(value)));
        Ok(())
    }

    /// Scans an identifier or reserved word whose first letter has been
    /// read.
    fn identifier(&mut self)
        requires
            old(self).start < old(self).source.len(),
            old(self).current == old(self).start + 1,
        ensures
            final(self).source == old(self).source,
            final(self).start == old(self).start,
            final(self).line == old(self).line,
            final(self).current == word_end(old(self).source@, old(self).start + 1),
            token_views(final(self).tokens@) == token_views(old(self).tokens@).push(
                word_step(old(self).source@, old(self).start as int, old(self).line).token.unwrap(),
            ),
    {
        while !self.is_end() && is_alphanumeric(self.peek())
            invariant
                self.source == old(self).source,
                self.start == old(self).start,
                self.tokens == old(self).tokens,
                self.line == old(self).line,
                self.start + 1 <= self.current <= self.source.len(),
                word_end(self.source@, self.current as int) == word_end(
                    self.source@,
                    self.start + 1,
                ),
            decreases self.source.len() - self.current,
        {
            self.advance();
        }
        let text = slice_of(&self.source, self.start, self.current);
        let token_type = match keyword(&text) {
            Some(t) => t,
            None => TokenType::Identifier,
        };
        self.add_token(token_type, None);
    }
}

/// Whether a character is one of `0` to `9`.
pub fn is_digit_char(c: char) -> (r: bool)
    ensures
        r == is_digit(c),
{
    '0' <= c && c <= '9'
}

/// Scans a whole source text.
pub fn scan_source(source: &str) -> (r: Result<Vec<Token>, ScanError>)
    ensures
        match scan(source@) {
            Ok(tokens) => r is Ok && token_views(r.unwrap()@) == tokens,
            Err(e) => r == Err::<Vec<Token>, ScanError>(e),
        },
{
    let mut scanner = Scanner {
        source: chars_of(source),
        tokens: Vec::new(),
        start: 0,
        current: 0,
        line: 1,
    };
    assert(token_views(scanner.tokens@) =~= Seq::empty());
    match scanner.scan_tokens() {
        Ok(()) => Ok(scanner.tokens),
        Err(e) => Err(e),
    }
}

} // verus!
