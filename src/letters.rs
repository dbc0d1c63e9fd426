//! Letter case of characters and strings.
//!
//! Case mapping is Unicode's, as the standard library provides it. On ASCII
//! text it is the plain mapping between `A`-`Z` and `a`-`z`, which is what
//! every proof about identifiers relies on.
use vstd::prelude::*;

verus! {

pub open spec fn is_ascii_char(c: char) -> bool {
    (c as u32) < 128
}

pub open spec fn is_ascii_upper(c: char) -> bool {
    'A' <= c && c <= 'Z'
}

pub open spec fn is_ascii_lower(c: char) -> bool {
    'a' <= c && c <= 'z'
}

pub open spec fn is_ascii_digit(c: char) -> bool {
    '0' <= c && c <= '9'
}

pub open spec fn all_ascii(s: Seq<char>) -> bool {
    forall|i: int| 0 <= i < s.len() ==> is_ascii_char(#[trigger] s[i])
}

pub open spec fn ascii_lower_char(c: char) -> char {
    if is_ascii_upper(c) {
        ((c as u32) + 32) as char
    } else {
        c
    }
}

pub open spec fn ascii_upper_char(c: char) -> char {
    if is_ascii_lower(c) {
        ((c as u32) - 32) as char
    } else {
        c
    }
}

/// What `str::to_lowercase` returns.
pub uninterp spec fn lowercase_of(s: Seq<char>) -> Seq<char>;

/// What `str::to_uppercase` returns.
pub uninterp spec fn uppercase_of(s: Seq<char>) -> Seq<char>;

/// Whether a character has Unicode's `Uppercase` property.
pub uninterp spec fn has_uppercase_property(c: char) -> bool;

/// The lowercase form of `s`.
pub open spec fn lower(s: Seq<char>) -> Seq<char> {
    if all_ascii(s) {
        s.map_values(|c: char| ascii_lower_char(c))
    } else {
        lowercase_of(s)
    }
}

/// The uppercase form of `s`.
pub open spec fn upper(s: Seq<char>) -> Seq<char> {
    if all_ascii(s) {
        s.map_values(|c: char| ascii_upper_char(c))
    } else {
        uppercase_of(s)
    }
}

/// Whether `c` counts as an uppercase letter.
pub open spec fn is_upper(c: char) -> bool {
    if is_ascii_char(c) {
        is_ascii_upper(c)
    } else {
        has_uppercase_property(c)
    }
}

/// Relies on `str::to_lowercase`: each character mapped to its lowercase form;
/// on ASCII text only `A`-`Z` change, to `a`-`z`.
#[verifier::external_body]
fn str_to_lowercase(s: &str) -> (r: String)
    ensures
        r@ == lowercase_of(s@),
        all_ascii(s@) ==> r@ == s@.map_values(|c: char| ascii_lower_char(c)),
{
    s.to_lowercase()
}

/// Relies on `str::to_uppercase`: each character mapped to its uppercase form;
/// on ASCII text only `a`-`z` change, to `A`-`Z`.
#[verifier::external_body]
fn str_to_uppercase(s: &str) -> (r: String)
    ensures
        r@ == uppercase_of(s@),
        all_ascii(s@) ==> r@ == s@.map_values(|c: char| ascii_upper_char(c)),
{
    s.to_uppercase()
}

/// Relies on `char::is_uppercase`: the `Uppercase` property, which among
/// ASCII characters exactly `A`-`Z` have.
#[verifier::external_body]
fn char_is_uppercase(c: char) -> (r: bool)
    ensures
        r == has_uppercase_property(c),
        is_ascii_char(c) ==> (r == is_ascii_upper(c)),
{
    c.is_uppercase()
}

/// The lowercase form of `s`.
pub fn to_lower(s: &str) -> (r: String)
    ensures
        r@ == lower(s@),
{
    str_to_lowercase(s)
}

/// The uppercase form of `s`.
pub fn to_upper(s: &str) -> (r: String)
    ensures
        r@ == upper(s@),
{
    str_to_uppercase(s)
}

/// Whether `c` is an uppercase letter.
pub fn char_is_upper(c: char) -> (r: bool)
    ensures
        r == is_upper(c),
{
    char_is_uppercase(c)
}

} // verus!
