//! Draft-buffer text edits. vstd gives `String` construction, equality and
//! append a specification, but not the single-character edits the entry flows
//! need, so those three stand here as trusted wrappers around std.

use vstd::prelude::*;

verus! {

/// Relies on String::push: appends the character to the end of the string.
#[verifier::external_body]
pub(crate) fn string_push(s: &mut String, c: char)
    ensures
        final(s)@ == old(s)@.push(c),
{
    s.push(c);
}

/// Relies on String::pop: removes and returns the last character, or returns
/// `None` and leaves the string as it was when it is empty.
#[verifier::external_body]
pub(crate) fn string_pop(s: &mut String) -> (r: Option<char>)
    ensures
        old(s)@.len() == 0 ==> final(s)@ == old(s)@ && r is None,
        old(s)@.len() > 0 ==> final(s)@ == old(s)@.drop_last() && r == Some(old(s)@.last()),
{
    s.pop()
}

/// Relies on String::clear: removes every character.
#[verifier::external_body]
pub(crate) fn string_clear(s: &mut String)
    ensures
        final(s)@ == Seq::<char>::empty(),
{
    s.clear();
}

} // verus!
