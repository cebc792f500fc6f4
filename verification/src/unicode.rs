//! Unicode character properties, as the standard library computes them.
use vstd::prelude::*;

verus! {

/// Whether a character has the Unicode `Lowercase` property.
pub uninterp spec fn has_lowercase_property(c: char) -> bool;

/// Whether a character has the Unicode `Uppercase` property.
pub uninterp spec fn has_uppercase_property(c: char) -> bool;

/// The Unicode uppercase mapping of a character (one to three characters).
pub uninterp spec fn uppercase_mapping(c: char) -> Seq<char>;

/// `char::is_lowercase`: the result is the character's Unicode `Lowercase` property.
#[verifier::external_body]
pub(crate) fn char_is_lowercase(c: char) -> (b: bool)
    ensures
        b == has_lowercase_property(c),
{
    c.is_lowercase()
}

/// `char::is_uppercase`: the result is the character's Unicode `Uppercase` property.
#[verifier::external_body]
pub(crate) fn char_is_uppercase(c: char) -> (b: bool)
    ensures
        b == has_uppercase_property(c),
{
    c.is_uppercase()
}

/// `char::to_uppercase`, collected into a `String`: the character's Unicode uppercase mapping.
#[verifier::external_body]
pub(crate) fn char_to_uppercase(c: char) -> (r: String)
    ensures
        r@ == uppercase_mapping(c),
{
    c.to_uppercase().collect::<String>()
}

} // verus!
