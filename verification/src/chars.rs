//! Character classes the tokenizer relies on, as std's `char` methods define them.

use vstd::prelude::*;

verus! {

/// Whether `c` has the Unicode `Alphabetic` property (`char::is_alphabetic`).
pub uninterp spec fn alphabetic(c: char) -> bool;

/// Whether `c` is in one of Unicode's general categories for numbers
/// (`char::is_numeric`).
pub uninterp spec fn numeric(c: char) -> bool;

/// `char::is_alphabetic`; the result is named, since Unicode's tables decide it.
#[verifier::external_body]
pub(crate) fn is_alphabetic(c: char) -> (r: bool)
    ensures
        r == alphabetic(c),
{
    c.is_alphabetic()
}

/// `char::is_numeric`; the result is named, since Unicode's tables decide it.
#[verifier::external_body]
pub(crate) fn is_numeric(c: char) -> (r: bool)
    ensures
        r == numeric(c),
{
    c.is_numeric()
}

/// `char::is_alphanumeric`, which std documents as `is_alphabetic() || is_numeric()`.
#[verifier::external_body]
pub(crate) fn is_alphanumeric(c: char) -> (r: bool)
    ensures
        r == (alphabetic(c) || numeric(c)),
{
    c.is_alphanumeric()
}

} // verus!
