//! A single trusted string primitive: appending one character to a `String`.
//! Everything the crate renders is built from it and from the specified
//! `&str` appends of the standard library.

use vstd::prelude::*;

verus! {

/// Relies on String::push, which appends exactly the given character to the
/// end of the string.
#[verifier::external_body]
pub(crate) fn push_char(s: &mut String, c: char)
    ensures
        final(s)@ == old(s)@ + seq![c],
{
    s.push(c);
}

} // verus!
