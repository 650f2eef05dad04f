//! Lowercase folding for case-insensitive matching.
//!
//! Folding is done by `str::to_lowercase`. On ASCII text its result is fully
//! specified here (uppercase letters map to their lowercase counterparts,
//! everything else is unchanged); on any other text the result is only given
//! a name, `lower_of`.

use vstd::prelude::*;
use vstd::utf8::is_ascii_chars;

verus! {

/// What `str::to_lowercase` returns on a sequence of characters that is not
/// all ASCII.
pub uninterp spec fn lower_of(s: Seq<char>) -> Seq<char>;

/// The lowercase counterpart of an ASCII character: `'A'..='Z'` map to
/// `'a'..='z'`, every other character is unchanged.
pub open spec fn ascii_lower_char(c: char) -> char {
    if 'A' <= c && c <= 'Z' {
        ((c as u32 + 32) as u32) as char
    } else {
        c
    }
}

/// An ASCII sequence folded character by character.
pub open spec fn ascii_lower(s: Seq<char>) -> Seq<char> {
    Seq::new(s.len(), |i: int| ascii_lower_char(s[i]))
}

/// The lowercase fold of a character sequence: on ASCII text the
/// character-wise ASCII fold, on any other text the named result of
/// `str::to_lowercase`.
pub open spec fn fold_of(s: Seq<char>) -> Seq<char> {
    if is_ascii_chars(s) {
        ascii_lower(s)
    } else {
        lower_of(s)
    }
}

/// Relies on `str::to_lowercase`: its result depends on the characters alone,
/// and on ASCII input it maps the letters `'A'..='Z'` to `'a'..='z'` and
/// leaves every other character unchanged (Unicode lowercasing restricted to
/// ASCII; an empty string stays empty).
#[verifier::external_body]
pub(crate) fn to_lowercase_str(s: &str) -> (r: String)
    ensures
        r@ == fold_of(s@),
        !is_ascii_chars(s@) ==> r@ == lower_of(s@),
{
    s.to_lowercase()
}

} // verus!
