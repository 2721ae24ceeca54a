//! Conversions between strings and sequences of characters.

use vstd::prelude::*;

verus! {

/// Builds a string from its characters.
///
/// Trusted: calls `String::from_iter` of the standard library on a borrowed
/// vector of characters, and claims that the string it returns holds
/// exactly those characters, in order.
#[verifier::external_body]
pub(crate) fn string_from_chars(chars: &Vec<char>) -> (s: String)
    ensures
        s@ == chars@,
{
    String::from_iter(chars)
}

/// Whether a character is alphabetic: what `char::is_alphabetic` of the
/// standard library answers for it.
pub uninterp spec fn alphabetic(c: char) -> bool;

/// Whether a character is alphabetic or numeric: what
/// `char::is_alphanumeric` of the standard library answers for it.
pub uninterp spec fn alphanumeric(c: char) -> bool;

/// Whether a character is alphabetic.
///
/// Trusted: calls `char::is_alphabetic` of the standard library, and
/// claims only that its answer depends on the character alone: it is the
/// answer named [`alphabetic`]. Nothing is claimed of which characters
/// are alphabetic.
#[verifier::external_body]
pub(crate) fn is_alphabetic(c: char) -> (r: bool)
    ensures
        r == alphabetic(c),
{
    c.is_alphabetic()
}

/// Whether a character is alphabetic or numeric.
///
/// Trusted: calls `char::is_alphanumeric` of the standard library, and
/// claims only that its answer depends on the character alone: it is the
/// answer named [`alphanumeric`]. Nothing is claimed of which characters
/// are alphanumeric.
#[verifier::external_body]
pub(crate) fn is_alphanumeric(c: char) -> (r: bool)
    ensures
        r == alphanumeric(c),
{
    c.is_alphanumeric()
}

/// The characters of a string, in order.
pub fn chars_of(s: &str) -> (v: Vec<char>)
    ensures
        v@ == s@,
{
    let mut v: Vec<char> = Vec::new();
    for c in it: s.chars()
        invariant
            v@ == it.seq().take(it.index()),
            it.seq() == s@,
    {
        v.push(c);
    }
    v
}

/// A copy of the characters from `from` up to, not including, `to`.
pub fn slice_of(chars: &Vec<char>, from: usize, to: usize) -> (v: Vec<char>)
    requires
        from <= to <= chars.len(),
    ensures
        v@ == chars@.subrange(from as int, to as int),
{
    let mut v: Vec<char> = Vec::new();
    let mut i: usize = from;
    while i < to
        invariant
            from <= i <= to <= chars.len(),
            v@ == chars@.subrange(from as int, i as int),
        decreases to - i,
    {
        v.push(chars[i]);
        i += 1;
        assert(v@ =~= chars@.subrange(from as int, i as int));
    }
    v
}

} // verus!
