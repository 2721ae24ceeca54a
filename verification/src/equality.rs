//! Equality of runtime values.

use vstd::prelude::*;
use vstd::std_specs::cmp::PartialEqSpecImpl;
use crate::value::Evaluation;

verus! {

impl<'a> PartialEq for Evaluation<'a> {
    fn eq(&self, other: &Self) -> (r: bool) {
        match (self, other) {
            (Evaluation::Text(a), Evaluation::Text(b)) => *a == *b,
            (Evaluation::Number(a), Evaluation::Number(b)) => a.equals(*b),
            (Evaluation::Boolean(a), Evaluation::Boolean(b)) => *a == *b,
            (Evaluation::Nil, Evaluation::Nil) => true,
            _ => false,
        }
    }
}

impl<'a> PartialEqSpecImpl for Evaluation<'a> {
    open spec fn obeys_eq_spec() -> bool {
        true
    }

    open spec fn eq_spec(&self, other: &Self) -> bool {
        self@.equals(other@)
    }
}

} // verus!
