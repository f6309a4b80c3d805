//! Concatenating text fragments into one interned string.

use crate::pool::{consistent, interns, staticize, InternPool};
use vstd::prelude::*;
use vstd::string::*;

verus! {

/// The text of `parts` laid end to end.
pub open spec fn joined(parts: Seq<&str>) -> Seq<char>
    decreases parts.len(),
{
    if parts.len() == 0 {
        Seq::empty()
    } else {
        joined(parts.drop_last()) + parts.last()@
    }
}

/// Concatenates `parts` in order and interns the result.
///
/// The concatenation is interned like any other text, whatever it is: with no
/// parts at all it is the empty string, and the pool holds the empty string
/// afterwards.
pub fn static_concat(pool: &mut InternPool, parts: &[&str]) -> (r: &'static str)
    ensures
        interns(old(pool)@, joined(parts@), r, final(pool)@),
        consistent(final(pool)@),
{
    let mut text = String::new();
    let mut i: usize = 0;
    while i < parts.len()
        invariant
            i <= parts.len(),
            text@ == joined(parts@.take(i as int)),
        decreases parts.len() - i,
    {
        text.append(parts[i]);
        proof {
            assert(parts@.take(i + 1).drop_last() == parts@.take(i as int));
        }
        i = i + 1;
    }
    proof {
        assert(parts@.take(parts@.len() as int) == parts@);
    }
    staticize(pool, text.as_str())
}

} // verus!
