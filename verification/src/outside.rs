//! The calls that leave this library, and what is relied on about each.

use vstd::prelude::*;
use vstd::string::*;

verus! {

/// `String::push`: the character is appended to the end of the string.
pub assume_specification[ String::push ](s: &mut String, c: char)
    ensures
        final(s)@ == old(s)@.push(c),
;

/// The message of the error for bytes that are not UTF-8.
pub uninterp spec fn utf8_error_text(bytes: Seq<u8>) -> Seq<char>;

/// The Unix timestamp that an RFC 3339 date and time stands for, or the message
/// of the error for text that is none.
pub uninterp spec fn rfc3339_timestamp(s: Seq<char>) -> Result<i64, Seq<char>>;

/// A timestamp, or the message of the error.
pub open spec fn timestamp_view(r: Result<i64, String>) -> Result<i64, Seq<char>> {
    match r {
        Ok(t) => Ok(t),
        Err(e) => Err(e@),
    }
}

/// `std::str::from_utf8`: bytes that are UTF-8 give the text that they encode,
/// and no other bytes do. Of the error's message nothing is relied on but that
/// the bytes alone decide it.
#[verifier::external_body]
pub(crate) fn utf8_text(bytes: &[u8]) -> (r: Result<String, String>)
    ensures
        match r {
            Ok(s) => vstd::utf8::valid_utf8(bytes@) && s@ == vstd::utf8::decode_utf8(bytes@),
            Err(e) => !vstd::utf8::valid_utf8(bytes@) && e@ == utf8_error_text(bytes@),
        },
{
    match std::str::from_utf8(bytes) {
        Ok(s) => Ok(s.to_string()),
        Err(e) => Err(e.to_string()),
    }
}

/// `chrono::DateTime::parse_from_rfc3339`, with the date and time it gives taken
/// as its Unix timestamp and its error as its message. What it gives is decided
/// by the text alone; which texts it takes is not stated.
#[verifier::external_body]
pub(crate) fn parse_rfc3339(s: &str) -> (r: Result<i64, String>)
    ensures
        timestamp_view(r) == rfc3339_timestamp(s@),
{
    match chrono::DateTime::parse_from_rfc3339(s) {
        Ok(t) => Ok(t.timestamp()),
        Err(e) => Err(e.to_string()),
    }
}

} // verus!
