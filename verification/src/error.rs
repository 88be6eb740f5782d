//! The ways in which decoding or encoding a container fails.

use crate::text::{decimal, lemma_encode_utf8_concat, push_decimal, string_from_utf8};
use vstd::prelude::*;
use vstd::utf8::*;

verus! {

/// The error type of `serde_json`. The codec hands such a value on to the
/// caller and never looks inside.
#[verifier::external_type_specification]
#[verifier::external_body]
pub struct ExJsonError(serde_json::Error);

/// Why reading from the input failed.
#[derive(Debug, Clone, Copy, PartialEq, Eq)]
pub enum IoErrorKind {
    /// A field reaches beyond the end of the input.
    UnexpectedEof,
    /// The rest of the input was to be read as text and is not UTF-8.
    InvalidData,
}

/// A failed decode or encode. Whichever it is, nothing was produced.
#[non_exhaustive]
#[derive(Debug)]
pub enum ParserError {
    /// The input could not be read as far as the layout asks.
    IoError(IoErrorKind),
    /// The version field holds another version than the supported one:
    /// the expected version, then the one found.
    InvalidVersion(u16, u16),
    /// The type tag is none of 1, 2 and 3.
    UnrecognizedType(u16),
    /// A text was to be the JSON form of a structured value and is not.
    SerdeParseError(serde_json::Error),
    /// A length-delimited text is not UTF-8.
    Invalid,
    /// A binary package uses the entry id 255, which ends the entry list.
    ReservedKey,
}

/// What a [`ParserError`] says, without the details that `serde_json` adds.
pub enum ErrorView {
    IoError(IoErrorKind),
    InvalidVersion(u16, u16),
    UnrecognizedType(u16),
    SerdeParseError,
    Invalid,
    ReservedKey,
}

impl View for ParserError {
    type V = ErrorView;

    open spec fn view(&self) -> ErrorView {
        match self {
            ParserError::IoError(kind) => ErrorView::IoError(*kind),
            ParserError::InvalidVersion(expected, found) => ErrorView::InvalidVersion(
                *expected,
                *found,
            ),
            ParserError::UnrecognizedType(tag) => ErrorView::UnrecognizedType(*tag),
            ParserError::SerdeParseError(_) => ErrorView::SerdeParseError,
            ParserError::Invalid => ErrorView::Invalid,
            ParserError::ReservedKey => ErrorView::ReservedKey,
        }
    }
}

/// What is said of an error in words.
pub open spec fn message(error: ErrorView) -> Seq<char> {
    match error {
        ErrorView::InvalidVersion(expected, found) => "Invalid Version, expected "@ + decimal(
            expected as nat,
        ) + " found "@ + decimal(found as nat),
        ErrorView::UnrecognizedType(tag) => "Unrecognized Type, found "@ + decimal(tag as nat),
        ErrorView::ReservedKey => "Reserved Key"@,
        _ => "Invalid Data"@,
    }
}

impl ParserError {
    /// The error in words: a version or a type tag that was refused is named
    /// with its number, a reserved entry id as such, and every other error as
    /// invalid data.
    pub fn description(&self) -> (r: String)
        ensures
            r@ == message(self@),
    {
        match self {
            ParserError::InvalidVersion(expected, found) => {
                let lead = "Invalid Version, expected ";
                let mid = " found ";
                let mut out: Vec<u8> = Vec::new();
                out.extend_from_slice(lead.as_bytes());
                push_decimal(&mut out, *expected);
                out.extend_from_slice(mid.as_bytes());
                push_decimal(&mut out, *found);
                proof {
                    let first = decimal(*expected as nat);
                    let second = decimal(*found as nat);
                    lemma_encode_utf8_concat(lead@, first);
                    lemma_encode_utf8_concat(lead@ + first, mid@);
                    lemma_encode_utf8_concat(lead@ + first + mid@, second);
                    assert(out@ =~= encode_utf8(message(self@)));
                    encode_utf8_valid_utf8(message(self@));
                    encode_utf8_decode_utf8(message(self@));
                }
                string_from_utf8(out).unwrap()
            },
            ParserError::UnrecognizedType(tag) => {
                let lead = "Unrecognized Type, found ";
                let mut out: Vec<u8> = Vec::new();
                out.extend_from_slice(lead.as_bytes());
                push_decimal(&mut out, *tag);
                proof {
                    lemma_encode_utf8_concat(lead@, decimal(*tag as nat));
                    assert(out@ =~= encode_utf8(message(self@)));
                    encode_utf8_valid_utf8(message(self@));
                    encode_utf8_decode_utf8(message(self@));
                }
                string_from_utf8(out).unwrap()
            },
            ParserError::ReservedKey => "Reserved Key".to_owned(),
            _ => "Invalid Data".to_owned(),
        }
    }
}

impl From<serde_json::Error> for ParserError {
    fn from(value: serde_json::Error) -> (r: ParserError) {
        ParserError::SerdeParseError(value)
    }
}

impl vstd::std_specs::convert::FromSpecImpl<serde_json::Error> for ParserError {
    open spec fn obeys_from_spec() -> bool {
        true
    }

    open spec fn from_spec(value: serde_json::Error) -> ParserError {
        ParserError::SerdeParseError(value)
    }
}

impl From<IoErrorKind> for ParserError {
    fn from(value: IoErrorKind) -> (r: ParserError) {
        ParserError::IoError(value)
    }
}

impl vstd::std_specs::convert::FromSpecImpl<IoErrorKind> for ParserError {
    open spec fn obeys_from_spec() -> bool {
        true
    }

    open spec fn from_spec(value: IoErrorKind) -> ParserError {
        ParserError::IoError(value)
    }
}

} // verus!
