//! What the Unicode tables say of characters and of text.

use vstd::prelude::*;

verus! {

/// The lower-case form of `text`, as the Unicode tables give it.
pub uninterp spec fn lowercase(text: Seq<char>) -> Seq<char>;

/// `c` is alphabetic or numeric, as the Unicode tables give it.
pub uninterp spec fn alphanumeric(c: char) -> bool;

/// `char::is_alphanumeric` depends on the character alone. Which characters
/// it holds of is not said here.
pub assume_specification[ char::is_alphanumeric ](c: char) -> (yes: bool)
    ensures
        yes == alphanumeric(c),
;

/// `str::to_lowercase` depends on the text alone. Which text it gives is not
/// said here.
#[verifier::external_body]
pub(crate) fn to_lowercase(text: &str) -> (lower: String)
    ensures
        lower@ == lowercase(text@),
{
    text.to_lowercase()
}

} // verus!
