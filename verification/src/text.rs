//! From what the code generator wrote to the text of a program unit.
//!
//! The generator writes bytes, or fails with an error of its writer. What it
//! wrote is the unit's text where the bytes are UTF-8.

use std::string::FromUtf8Error;
use vstd::prelude::*;
use vstd::utf8::{decode_utf8, valid_utf8};

verus! {

/// `std::io::Error`, what the code generator returns when its writer fails.
#[verifier::external_type_specification]
#[verifier::external_body]
pub struct IoErrorDeclaration(std::io::Error);

/// `std::string::FromUtf8Error`, what `String::from_utf8` returns for bytes
/// that are not UTF-8.
#[verifier::external_type_specification]
#[verifier::external_body]
pub struct FromUtf8ErrorDeclaration(FromUtf8Error);

/// `String::from_utf8`: the bytes become a string exactly when they are valid
/// UTF-8, and the string is then their decoding.
pub assume_specification[ String::from_utf8 ](vec: Vec<u8>) -> (out: Result<String, FromUtf8Error>)
    ensures
        out is Ok == valid_utf8(vec@),
        out matches Ok(s) ==> s@ == decode_utf8(vec@),
;

/// Why a module could not be turned into text.
#[derive(Debug)]
pub enum PrintError {
    /// The generator failed, with this error of its writer.
    Generator(std::io::Error),
    /// The generator wrote bytes that are not UTF-8.
    NotUtf8(FromUtf8Error),
}

/// The text that the code generator's outcome stands for: the characters
/// that its bytes spell in UTF-8. Where the generator failed, its error is
/// handed on; where its bytes are not UTF-8, that is the error.
pub fn generate_output(emitted: Result<Vec<u8>, std::io::Error>) -> (out: Result<
    String,
    PrintError,
>)
    ensures
        match emitted {
            Ok(bytes) => if valid_utf8(bytes@) {
                out matches Ok(text) && text@ == decode_utf8(bytes@)
            } else {
                out matches Err(PrintError::NotUtf8(_))
            },
            Err(failure) => out matches Err(PrintError::Generator(handed)) && handed == failure,
        },
{
    match emitted {
        Ok(bytes) => match String::from_utf8(bytes) {
            Ok(text) => Ok(text),
            Err(e) => Err(PrintError::NotUtf8(e)),
        },
        Err(failure) => Err(PrintError::Generator(failure)),
    }
}

} // verus!
