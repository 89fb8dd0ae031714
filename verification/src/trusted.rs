//! Calls into outside code whose results the rest of the library reasons
//! about by name: Unicode case conversion and form-urlencoding. Each result
//! depends on the input characters alone, so it is given an uninterpreted
//! name that the callers' contracts carry along.

use vstd::prelude::*;

verus! {

/// Relies on char::from_u32: `Some` exactly on Unicode scalar values —
/// everything up to the largest code point except the surrogate range —
/// and the character returned carries that code.
pub assume_specification[ char::from_u32 ](i: u32) -> (r: Option<char>)
    ensures
        r is Some <==> (i < 0xD800 || (0xDFFF < i && i <= 0x10FFFF)),
        (r matches Some(c) ==> c == i as char),
;

pub uninterp spec fn upper_of(s: Seq<char>) -> Seq<char>;

pub uninterp spec fn lower_of(s: Seq<char>) -> Seq<char>;

pub uninterp spec fn www_form_encoded_of(s: Seq<char>) -> Seq<char>;

/// Relies on str::to_uppercase: the uppercase equivalent of the text, which
/// depends on the characters alone.
#[verifier::external_body]
pub(crate) fn to_upper_chars(s: &Vec<char>) -> (r: Vec<char>)
    ensures
        r@ == upper_of(s@),
{
    let t: String = s.iter().collect();
    t.to_uppercase().chars().collect()
}

/// Relies on str::to_lowercase: the lowercase equivalent of the text, which
/// depends on the characters alone.
#[verifier::external_body]
pub(crate) fn to_lower_chars(s: &Vec<char>) -> (r: Vec<char>)
    ensures
        r@ == lower_of(s@),
{
    let t: String = s.iter().collect();
    t.to_lowercase().chars().collect()
}

/// Relies on url_escape::encode_www_form_urlencoded: percent-encodes the
/// application/x-www-form-urlencoded set (space becomes `+`); the result
/// depends on the characters alone.
#[verifier::external_body]
pub(crate) fn www_form_encode_chars(s: &Vec<char>) -> (r: Vec<char>)
    ensures
        r@ == www_form_encoded_of(s@),
{
    let t: String = s.iter().collect();
    url_escape::encode_www_form_urlencoded(&t).chars().collect()
}

} // verus!
