//! Calls into std's string types whose behaviour vstd does not specify.
use vstd::prelude::*;
use vstd::utf8::*;

verus! {

/// `String::from_utf8`: turns a vector of bytes into a `String`. std documents
/// that it succeeds exactly on valid UTF-8; on such input the contract claims
/// that the resulting string holds the characters that the bytes encode.
#[verifier::external_body]
pub(crate) fn string_from_utf8(bytes: Vec<u8>) -> (s: String)
    requires
        valid_utf8(bytes@),
    ensures
        s@ == decode_utf8(bytes@),
{
    String::from_utf8(bytes).unwrap()
}

/// `String::push`: appends one character to a string; the contract claims
/// that the string's characters grow by exactly that character.
#[verifier::external_body]
pub(crate) fn string_push(s: &mut String, c: char)
    ensures
        final(s)@ == old(s)@.push(c),
{
    s.push(c)
}

} // verus!
