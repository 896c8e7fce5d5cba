use vstd::prelude::*;

verus! {

/// Relies on `String::push`: appends the given character to the end of
/// this string.
pub assume_specification[ String::push ](s: &mut String, ch: char)
    ensures
        final(s)@ == old(s)@.push(ch),
;

/// Relies on `String::with_capacity`: creates a new empty string with at
/// least the given capacity. The capacity is a performance hint; the
/// string holds no characters.
pub assume_specification[ String::with_capacity ](capacity: usize) -> (s: String)
    ensures
        s@ == Seq::<char>::empty(),
;

} // verus!
