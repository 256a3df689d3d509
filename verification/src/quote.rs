//! Text in quotes, for messages.

use vstd::prelude::*;

verus! {

/// The text between double quotes, with what does not print escaped, as the
/// `Debug` form of a string in std is.
pub uninterp spec fn quoted(s: Seq<char>) -> Seq<char>;

/// Whether a character is printable ASCII other than a quote or a backslash.
pub open spec fn is_plain(c: char) -> bool {
    ' ' <= c && c <= '~' && c != '"' && c != '\'' && c != '\\'
}

/// The `Debug` form of a `str` in std. The contract gives it a name; of a text
/// that needs no escape it says that the form is the text between quotes.
#[verifier::external_body]
pub(crate) fn quote(s: &str) -> (r: String)
    ensures
        r@ == quoted(s@),
        (forall|i: int| 0 <= i < s@.len() ==> is_plain(#[trigger] s@[i])) ==> r@ == seq!['"'] + s@
            + seq!['"'],
{
    format!("{:?}", s)
}

} // verus!
