//! Turning a downloaded file body into text.
use vstd::prelude::*;
use vstd::utf8::{decode_utf8, valid_utf8};
use crate::errors::GitHubApiError;

verus! {

/// `std::string::FromUtf8Error`, carried from the decoder to its message.
#[verifier::external_type_specification]
#[verifier::external_body]
pub struct ExFromUtf8Error(std::string::FromUtf8Error);

/// Decodes `bytes` as UTF-8.
///
/// Trusted: calls `String::from_utf8`, whose documentation says that it
/// succeeds exactly on valid UTF-8 and then holds the decoded characters;
/// the contract states this with vstd's `valid_utf8` and `decode_utf8`.
#[verifier::external_body]
fn utf8_decode(bytes: Vec<u8>) -> (r: Result<String, std::string::FromUtf8Error>)
    ensures
        r is Ok <==> valid_utf8(bytes@),
        r matches Ok(s) ==> s@ == decode_utf8(bytes@),
{
    String::from_utf8(bytes)
}

/// The message of a UTF-8 decoding error.
///
/// Trusted: calls `ToString::to_string` on the error (its `Display`); the
/// message's text is not stated.
#[verifier::external_body]
fn utf8_error_message(e: &std::string::FromUtf8Error) -> String {
    e.to_string()
}

/// The text of a downloaded file: its body decoded as UTF-8, or an error
/// where the body is not valid UTF-8.
pub fn file_text_from_body(body: Vec<u8>) -> (r: Result<String, GitHubApiError>)
    ensures
        r is Ok <==> valid_utf8(body@),
        r matches Ok(s) ==> s@ == decode_utf8(body@),
        r matches Err(e) ==> e is Other,
{
    match utf8_decode(body) {
        Ok(s) => Ok(s),
        Err(e) => Err(GitHubApiError::Other(utf8_error_message(&e))),
    }
}

} // verus!
