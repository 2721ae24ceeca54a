//! The reserved words of the language.

use vstd::prelude::*;
use crate::token::TokenType;

verus! {

/// The token kind of a reserved word; `None` for any other text.
pub open spec fn keyword_of(text: Seq<char>) -> Option<TokenType> {
    if text == seq!['a', 'n', 'd'] {
        Some(TokenType::And)
    } else if text == seq!['c', 'l', 'a', 's', 's'] {
        Some(TokenType::Class)
    } else if text == seq!['e', 'l', 's', 'e'] {
        Some(TokenType::Else)
    } else if text == seq!['f', 'a', 'l', 's', 'e'] {
        Some(TokenType::False)
    } else if text == seq!['f', 'o', 'r'] {
        Some(TokenType::For)
    } else if text == seq!['f', 'u', 'n'] {
        Some(TokenType::Fun)
    } else if text == seq!['i', 'f'] {
        Some(TokenType::If)
    } else if text == seq!['n', 'i', 'l'] {
        Some(TokenType::Nil)
    } else if text == seq!['o', 'r'] {
        Some(TokenType::Or)
    } else if text == seq!['p', 'r', 'i', 'n', 't'] {
        Some(TokenType::Print)
    } else if text == seq!['r', 'e', 't', 'u', 'r', 'n'] {
        Some(TokenType::Return)
    } else if text == seq!['s', 'u', 'p', 'e', 'r'] {
        Some(TokenType::Super)
    } else if text == seq!['t', 'h', 'i', 's'] {
        Some(TokenType::This)
    } else if text == seq!['t', 'r', 'u', 'e'] {
        Some(TokenType::True)
    } else if text == seq!['v', 'a', 'r'] {
        Some(TokenType::Var)
    } else if text == seq!['w', 'h', 'i', 'l', 'e'] {
        Some(TokenType::While)
    } else {
        None
    }
}

/// Whether `text` spells exactly `word`.
fn spells<const N: usize>(text: &Vec<char>, word: &[char; N]) -> (r: bool)
    ensures
        r == (text@ == word@),
{
    if text.len() != N {
        return false;
    }
    let mut i: usize = 0;
    while i < N
        invariant
            i <= N,
            text.len() == N,
            forall|j: int| 0 <= j < i ==> text@[j] == word@[j],
        decreases N - i,
    {
        if text[i] != word[i] {
            return false;
        }
        i += 1;
    }
    assert(text@ =~= word@);
    true
}

/// Looks a word up among the reserved words.
pub fn keyword(text: &Vec<char>) -> (r: Option<TokenType>)
    ensures
        r == keyword_of(text@),
{
    proof {
        assert(['a', 'n', 'd']@ =~= seq!['a', 'n', 'd']);
        assert(['c', 'l', 'a', 's', 's']@ =~= seq!['c', 'l', 'a', 's', 's']);
        assert(['e', 'l', 's', 'e']@ =~= seq!['e', 'l', 's', 'e']);
        assert(['f', 'a', 'l', 's', 'e']@ =~= seq!['f', 'a', 'l', 's', 'e']);
        assert(['f', 'o', 'r']@ =~= seq!['f', 'o', 'r']);
        assert(['f', 'u', 'n']@ =~= seq!['f', 'u', 'n']);
        assert(['i', 'f']@ =~= seq!['i', 'f']);
        assert(['n', 'i', 'l']@ =~= seq!['n', 'i', 'l']);
        assert(['o', 'r']@ =~= seq!['o', 'r']);
        assert(['p', 'r', 'i', 'n', 't']@ =~= seq!['p', 'r', 'i', 'n', 't']);
        assert(['r', 'e', 't', 'u', 'r', 'n']@ =~= seq!['r', 'e', 't', 'u', 'r', 'n']);
        assert(['s', 'u', 'p', 'e', 'r']@ =~= seq!['s', 'u', 'p', 'e', 'r']);
        assert(['t', 'h', 'i', 's']@ =~= seq!['t', 'h', 'i', 's']);
        assert(['t', 'r', 'u', 'e']@ =~= seq!['t', 'r', 'u', 'e']);
        assert(['v', 'a', 'r']@ =~= seq!['v', 'a', 'r']);
        assert(['w', 'h', 'i', 'l', 'e']@ =~= seq!['w', 'h', 'i', 'l', 'e']);
    }
    if spells(text, &['a', 'n', 'd']) {
        Some(TokenType::And)
    }     else if spells(text, &['c', 'l', 'a', 's', 's']) {
        Some(TokenType::Class)
    }     else if spells(text, &['e', 'l', 's', 'e']) {
        Some(TokenType::Else)
    }     else if spells(text, &['f', 'a', 'l', 's', 'e']) {
        Some(TokenType::False)
    }     else if spells(text, &['f', 'o', 'r']) {
        Some(TokenType::For)
    }     else if spells(text, &['f', 'u', 'n']) {
        Some(TokenType::Fun)
    }     else if spells(text, &['i', 'f']) {
        Some(TokenType::If)
    }     else if spells(text, &['n', 'i', 'l']) {
        Some(TokenType::Nil)
    }     else if spells(text, &['o', 'r']) {
        Some(TokenType::Or)
    }     else if spells(text, &['p', 'r', 'i', 'n', 't']) {
        Some(TokenType::Print)
    }     else if spells(text, &['r', 'e', 't', 'u', 'r', 'n']) {
        Some(TokenType::Return)
    }     else if spells(text, &['s', 'u', 'p', 'e', 'r']) {
        Some(TokenType::Super)
    }     else if spells(text, &['t', 'h', 'i', 's']) {
        Some(TokenType::This)
    }     else if spells(text, &['t', 'r', 'u', 'e']) {
        Some(TokenType::True)
    }     else if spells(text, &['v', 'a', 'r']) {
        Some(TokenType::Var)
    }     else if spells(text, &['w', 'h', 'i', 'l', 'e']) {
        Some(TokenType::While)
    } else {
        None
    }
}

} // verus!
