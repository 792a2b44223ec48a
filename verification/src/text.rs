//! Building strings one character at a time.

use vstd::prelude::*;

verus! {

/// Appends `c` to `s`. This is `String::push` of the standard library, which
/// vstd leaves without a specification. Taken on trust: the string afterwards
/// is the string before with `c` at its end.
#[verifier::external_body]
pub(crate) fn push_char(s: &mut String, c: char)
    ensures
        final(s)@ == old(s)@.push(c),
{
    s.push(c)
}

/// A string of one character.
pub fn char_string(c: char) -> (s: String)
    ensures
        s@ == seq![c],
{
    let mut s = String::new();
    push_char(&mut s, c);
    assert(s@ =~= seq![c]);
    s
}

} // verus!
