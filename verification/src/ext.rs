//! The crate's trusted surface: names for the Unicode case mappings of the
//! standard library, and thin wrappers around the outside calls the
//! conversions rest on.

use itertools::Itertools;
use vstd::prelude::*;

verus! {

/// The characters that `char::to_lowercase` yields for `c`, in order.
/// The mapping depends on the character alone.
pub uninterp spec fn lower_char(c: char) -> Seq<char>;

/// The characters that `char::to_uppercase` yields for `c`, in order.
/// The mapping depends on the character alone.
pub uninterp spec fn upper_char(c: char) -> Seq<char>;

/// Whether `c` has the Unicode property Lowercase, as `char::is_lowercase`
/// reports it.
pub uninterp spec fn is_lower_char(c: char) -> bool;

/// Whether `c` has the Unicode property Uppercase, as `char::is_uppercase`
/// reports it.
pub uninterp spec fn is_upper_char(c: char) -> bool;

/// Relies on `char::is_lowercase`: whether the character has the Unicode
/// property Lowercase; the answer depends on the character alone.
pub assume_specification[ char::is_lowercase ](c: char) -> (r: bool)
    ensures
        r == is_lower_char(c),
;

/// Relies on `char::is_uppercase`: whether the character has the Unicode
/// property Uppercase; the answer depends on the character alone.
pub assume_specification[ char::is_uppercase ](c: char) -> (r: bool)
    ensures
        r == is_upper_char(c),
;

/// Relies on `char::to_lowercase`: the lowercase mapping of the character,
/// which depends on the character alone.
#[verifier::external_body]
pub(crate) fn lower_chars(c: char) -> (r: Vec<char>)
    ensures
        r@ == lower_char(c),
{
    c.to_lowercase().collect()
}

/// Relies on `char::to_uppercase`: the uppercase mapping of the character,
/// which depends on the character alone.
#[verifier::external_body]
pub(crate) fn upper_chars(c: char) -> (r: Vec<char>)
    ensures
        r@ == upper_char(c),
{
    c.to_uppercase().collect()
}

/// Relies on `String::push`: appends the character to the end of the string.
#[verifier::external_body]
pub(crate) fn push_char(s: &mut String, c: char)
    ensures
        final(s)@ == old(s)@.push(c),
{
    s.push(c);
}

/// Relies on itertools' `tuple_windows`: the pairs of adjacent characters of
/// the text, in order; empty when the text has fewer than two characters.
#[verifier::external_body]
pub(crate) fn char_pairs(s: &str) -> (r: Vec<(char, char)>)
    ensures
        s@.len() == 0 ==> r@.len() == 0,
        s@.len() > 0 ==> r@.len() == s@.len() - 1,
        forall|i: int| 0 <= i < r@.len() ==> r@[i] == (s@[i], s@[i + 1]),
{
    s.chars().tuple_windows().collect()
}

} // verus!
