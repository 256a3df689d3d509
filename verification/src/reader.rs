//! Numbers as text. Reading and printing them is left to functions that the
//! caller brings; here stands what is asked of these functions.

use vstd::prelude::*;

use crate::binary64::Binary64;

verus! {

/// What a text means to a reader of numbers, where it always gives the same
/// answer for the same text.
pub open spec fn number_in<F: Fn(&str) -> Option<Binary64>>(read: F, text: Seq<char>) -> Option<
    Binary64,
> {
    choose|r: Option<Binary64>| may_read(read, text, r)
}

/// Whether a reader of numbers may give `r` for a text.
pub open spec fn may_read<F: Fn(&str) -> Option<Binary64>>(
    read: F,
    text: Seq<char>,
    r: Option<Binary64>,
) -> bool {
    exists|t: &str| t@ == text && #[trigger] call_ensures(read, (t,), r)
}

/// Whether a reader of numbers takes every text, and always gives the same
/// answer for the same text.
pub open spec fn is_reader<F: Fn(&str) -> Option<Binary64>>(read: F) -> bool {
    &&& forall|t: &str| call_requires(read, (t,))
    &&& forall|t: &str, u: &str, a: Option<Binary64>, b: Option<Binary64>|
        t@ == u@ && #[trigger] call_ensures(read, (t,), a) && #[trigger] call_ensures(read, (u,), b)
            ==> a == b
}

/// Whether a printer of numbers may give a text for a number.
pub open spec fn may_show<F: Fn(Binary64) -> String>(show: F, number: Binary64, text: Seq<char>) -> bool {
    exists|r: String| r@ == text && #[trigger] call_ensures(show, (number,), r)
}

/// The text of a number, where the printer always gives the same text for the
/// same number.
pub open spec fn shown<F: Fn(Binary64) -> String>(show: F, number: Binary64) -> Seq<char> {
    choose|text: Seq<char>| may_show(show, number, text)
}

/// Whether a printer of numbers takes every number, and always gives the same
/// text for the same number.
pub open spec fn is_printer<F: Fn(Binary64) -> String>(show: F) -> bool {
    &&& forall|n: Binary64| call_requires(show, (n,))
    &&& forall|n: Binary64, a: String, b: String|
        #[trigger] call_ensures(show, (n,), a) && #[trigger] call_ensures(show, (n,), b) ==> a@
            == b@
}

/// Prints a number.
pub fn print<F: Fn(Binary64) -> String>(show: &F, number: Binary64) -> (r: String)
    requires
        is_printer(*show),
    ensures
        r@ == shown(*show, number),
{
    let text = show(number);
    assert(may_show(*show, number, text@));
    text
}

/// Reads a number.
pub fn read<F: Fn(&str) -> Option<Binary64>>(read_number: &F, text: &str) -> (r: Option<Binary64>)
    requires
        is_reader(*read_number),
    ensures
        r == number_in(*read_number, text@),
{
    let number = read_number(text);
    assert(may_read(*read_number, text@, number));
    number
}

} // verus!
