//! Comparison of text without regard to the case of ASCII letters.

use uncased::UncasedStr;
use vstd::prelude::*;

verus! {

/// The lower-case form of an ASCII capital letter; any other character unchanged.
pub open spec fn lower(c: char) -> char {
    if 'A' <= c && c <= 'Z' {
        ((c as u32) + 32) as char
    } else {
        c
    }
}

/// The text `s` with each ASCII capital letter replaced by its lower-case form.
pub open spec fn lowercase(s: Seq<char>) -> Seq<char> {
    Seq::new(s.len(), |i: int| lower(s[i]))
}

/// Whether `a` and `b` are the same text once the case of ASCII letters is set aside.
pub open spec fn same_ignoring_case(a: Seq<char>, b: Seq<char>) -> bool {
    lowercase(a) == lowercase(b)
}

/// Compares two strings through `uncased`: `UncasedStr::new(a) == b`.
///
/// Trusted, not proved. `UncasedStr::new` only wraps the reference, and the equality of an
/// `UncasedStr` with a `str` is std's `eq_ignore_ascii_case` on the two strings. That one
/// holds exactly when their ASCII-lower-case forms are equal: `A` to `Z` count as `a` to
/// `z`, and every other character, non-ASCII letters too, only as itself.
#[verifier::external_body]
pub(crate) fn eq_uncased(a: &str, b: &str) -> (same: bool)
    ensures
        same == same_ignoring_case(a@, b@),
{
    UncasedStr::new(a) == b
}

} // verus!
