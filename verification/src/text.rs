//! Source regions: a span records where in the input a token came from and
//! carries the literal text of that region.

use vstd::prelude::*;

verus! {

/// A region of the input: start and end character offsets, together with the
/// literal text between them.
#[derive(Debug)]
pub struct TextSpan {
    pub start: usize,
    pub end: usize,
    pub literal: String,
}

impl TextSpan {
    pub fn new(start: usize, end: usize, literal: String) -> (r: TextSpan)
        ensures
            r.start == start,
            r.end == end,
            r.literal == literal,
    {
        TextSpan { start, end, literal }
    }
}

/// Relies on String::push: appends one character at the end of the string.
#[verifier::external_body]
pub(crate) fn push_char(s: &mut String, c: char)
    ensures
        final(s)@ == old(s)@.push(c),
{
    s.push(c);
}

} // verus!
