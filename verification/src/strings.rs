//! Contracts for the two `String` methods that the JSON writer uses and that
//! vstd leaves without a specification.

use vstd::prelude::*;

verus! {

/// `String::push` appends one character at the end of the string
/// (as its documentation says); nothing else changes.
pub assume_specification[ String::push ](s: &mut String, ch: char)
    ensures
        final(s)@ == old(s)@.push(ch),
;

/// `String::pop` removes the last character and returns it, or returns `None`
/// and leaves the string as it is when the string is empty (as its
/// documentation says).
pub assume_specification[ String::pop ](s: &mut String) -> (popped: Option<char>)
    ensures
        old(s)@.len() == 0 ==> popped is None && final(s)@ == old(s)@,
        old(s)@.len() > 0 ==> popped == Some(old(s)@.last()) && final(s)@ == old(s)@.drop_last(),
;

} // verus!
