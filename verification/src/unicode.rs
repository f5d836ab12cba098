//! Unicode character classes and case mappings, taken from the standard library.
//!
//! The Unicode tables are not restated here: each result is named, and only the
//! ASCII behaviour, which the standard library documents, is spelled out.

use vstd::prelude::*;
use crate::strs::{contains_sub, is_ascii_alnum};

verus! {

/// Whether a character is alphabetic or numeric in Unicode (`char::is_alphanumeric`).
pub uninterp spec fn unicode_alphanumeric(c: char) -> bool;

/// The upper-case mapping of a character (`char::to_uppercase`).
pub uninterp spec fn unicode_uppercase(c: char) -> Seq<char>;

/// The lower-case mapping of a string (`str::to_lowercase`).
pub uninterp spec fn unicode_lowercase(s: Seq<char>) -> Seq<char>;

/// A string without its leading and trailing white space (`str::trim`).
pub uninterp spec fn unicode_trim(s: Seq<char>) -> Seq<char>;

/// A character below 128.
pub open spec fn is_ascii(c: char) -> bool {
    (c as u32) < 128
}

/// ASCII upper-casing of one character.
pub open spec fn ascii_upper(c: char) -> char {
    if 'a' <= c && c <= 'z' {
        ((c as u32) - 32) as char
    } else {
        c
    }
}

/// ASCII lower-casing of one character.
pub open spec fn ascii_lower(c: char) -> char {
    if 'A' <= c && c <= 'Z' {
        ((c as u32) + 32) as char
    } else {
        c
    }
}

/// Calls `char::is_alphanumeric`. Claims that the result is the named Unicode
/// class, and that among ASCII characters exactly the letters and digits are in it.
#[verifier::external_body]
pub(crate) fn is_alphanumeric(c: char) -> (r: bool)
    ensures
        r == unicode_alphanumeric(c),
        is_ascii(c) ==> (r == is_ascii_alnum(c)),
{
    c.is_alphanumeric()
}

/// Calls `char::to_uppercase` and collects the characters it yields. Claims that
/// the result is the named mapping, and that an ASCII character maps to its ASCII
/// upper case alone.
#[verifier::external_body]
pub(crate) fn to_uppercase(c: char) -> (r: String)
    ensures
        r@ == unicode_uppercase(c),
        is_ascii(c) ==> r@ == seq![ascii_upper(c)],
{
    c.to_uppercase().collect::<String>()
}

/// Calls `str::to_lowercase`. Claims that the result is the named mapping, and that
/// an all-ASCII string maps character by character to its ASCII lower case.
#[verifier::external_body]
pub(crate) fn to_lowercase(s: &str) -> (r: String)
    ensures
        r@ == unicode_lowercase(s@),
        (forall|i: int| 0 <= i < s@.len() ==> is_ascii(#[trigger] s@[i])) ==> r@ == s@.map_values(
            |c: char| ascii_lower(c),
        ),
{
    s.to_lowercase()
}

/// Calls `str::trim`. Claims that the result is the named trimming, and that it is
/// a contiguous piece of the input.
#[verifier::external_body]
pub(crate) fn trim(s: &str) -> (r: &str)
    ensures
        r@ == unicode_trim(s@),
        contains_sub(s@, r@),
{
    s.trim()
}

} // verus!
