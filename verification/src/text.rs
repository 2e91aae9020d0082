//! What this crate takes on trust from the standard library: the Unicode
//! classification of a character, and appending a character to a string.

use vstd::prelude::*;

verus! {

/// Whether `c` carries the Unicode `White_Space` property, as
/// `char::is_whitespace` reports it.
pub uninterp spec fn is_whitespace_char(c: char) -> bool;

/// Whether `c` carries the Unicode `Alphabetic` property, as
/// `char::is_alphabetic` reports it.
pub uninterp spec fn is_alphabetic_char(c: char) -> bool;

/// Whether `c` is alphabetic or numeric in the Unicode sense, as
/// `char::is_alphanumeric` reports it.
pub uninterp spec fn is_alphanumeric_char(c: char) -> bool;

/// `char::is_whitespace` is a function of the character alone; its answer is
/// named [`is_whitespace_char`]. Nothing is claimed about which characters
/// are white space.
pub assume_specification[ char::is_whitespace ](c: char) -> (b: bool)
    ensures
        b == is_whitespace_char(c),
;

/// `char::is_alphabetic` is a function of the character alone; its answer is
/// named [`is_alphabetic_char`]. Nothing is claimed about which characters
/// are alphabetic.
pub assume_specification[ char::is_alphabetic ](c: char) -> (b: bool)
    ensures
        b == is_alphabetic_char(c),
;

/// `char::is_alphanumeric` is a function of the character alone; its answer
/// is named [`is_alphanumeric_char`]. It holds of every character of which
/// `char::is_alphabetic` holds. Nothing more is claimed about which
/// characters are alphanumeric.
pub assume_specification[ char::is_alphanumeric ](c: char) -> (b: bool)
    ensures
        b == is_alphanumeric_char(c),
        is_alphabetic_char(c) ==> b,
;

/// `String::push` appends the character to the end of the string and leaves
/// what was there before in place.
pub assume_specification[ String::push ](s: &mut String, c: char)
    ensures
        final(s)@ == old(s)@.push(c),
;

} // verus!
