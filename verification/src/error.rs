//! Error taxonomy of the codec, the command layer and the store.

use core::str::Utf8Error;
use vstd::prelude::*;
use vstd::std_specs::convert::FromSpecImpl;
use vstd::string::StringExecFns;

verus! {

/// Why a frame could not be read.
#[derive(Debug, Clone, Copy, PartialEq, Eq, Structural)]
pub enum ParseError {
    /// The bytes are not valid UTF-8.
    InvalidUTF,
    /// The frame does not follow the grammar of its kind.
    InvalidFormat,
    /// A token is not one of the recognized words.
    UnknownValue,
}

/// Every failure the library reports.
///
/// Parse failures carry the kind of value that was being read, so that a
/// caller can tell where in a frame the input went wrong.
#[derive(Debug, Clone, Copy, PartialEq, Eq, Structural)]
pub enum RedisError {
    CommandParseError(ParseError),
    BulkStringParseError(ParseError),
    SimpleStringParseError(ParseError),
    SimpleErrorParseError(ParseError),
    IntegerParseError(ParseError),
    BooleanParseError(ParseError),
    NullsParseError(ParseError),
    ValueParseError(ParseError),
    IndexOutOfBoundError,
    CRLFNotFoundError,
    UnknownCommand,
    KeyDoesNotExist,
    ExpiredKey,
}

impl ParseError {
    /// The text of this error.
    pub open spec fn spec_message(self) -> Seq<char> {
        match self {
            ParseError::InvalidUTF => "request should contain valid UTF-8 characters"@,
            ParseError::InvalidFormat => "request has invalid format"@,
            ParseError::UnknownValue => "unknown value"@,
        }
    }

    /// Renders this error as text.
    pub fn message(&self) -> (text: String)
        ensures
            text@ == self.spec_message(),
    {
        match self {
            ParseError::InvalidUTF => String::from_str(
                "request should contain valid UTF-8 characters",
            ),
            ParseError::InvalidFormat => String::from_str("request has invalid format"),
            ParseError::UnknownValue => String::from_str("unknown value"),
        }
    }
}

impl RedisError {
    /// The text of this error: for a parse failure, the kind of value that
    /// was being read, then the reason.
    pub open spec fn spec_message(self) -> Seq<char> {
        match self {
            RedisError::CommandParseError(e) => "Command Parse Error: "@ + e.spec_message(),
            RedisError::BulkStringParseError(e) => "Bulk String Parse Error: "@ + e.spec_message(),
            RedisError::SimpleStringParseError(e) => "Simple String Parse Error: "@
                + e.spec_message(),
            RedisError::SimpleErrorParseError(e) => "Simple Error Parse Error: "@
                + e.spec_message(),
            RedisError::IntegerParseError(e) => "Integer Parse Error: "@ + e.spec_message(),
            RedisError::BooleanParseError(e) => "Boolean Parse Error: "@ + e.spec_message(),
            RedisError::NullsParseError(e) => "Nulls Parse Error: "@ + e.spec_message(),
            RedisError::ValueParseError(e) => "Redis Value Parse Error: "@ + e.spec_message(),
            RedisError::IndexOutOfBoundError => "index is out of bound"@,
            RedisError::CRLFNotFoundError => "CRLF not found"@,
            RedisError::UnknownCommand => "Unknown command"@,
            RedisError::KeyDoesNotExist => "Key does not exist"@,
            RedisError::ExpiredKey => "Key has been expired"@,
        }
    }

    /// Renders this error as text.
    pub fn message(&self) -> (text: String)
        ensures
            text@ == self.spec_message(),
    {
        match self {
            RedisError::CommandParseError(e) => prefixed("Command Parse Error: ", e),
            RedisError::BulkStringParseError(e) => prefixed("Bulk String Parse Error: ", e),
            RedisError::SimpleStringParseError(e) => prefixed("Simple String Parse Error: ", e),
            RedisError::SimpleErrorParseError(e) => prefixed("Simple Error Parse Error: ", e),
            RedisError::IntegerParseError(e) => prefixed("Integer Parse Error: ", e),
            RedisError::BooleanParseError(e) => prefixed("Boolean Parse Error: ", e),
            RedisError::NullsParseError(e) => prefixed("Nulls Parse Error: ", e),
            RedisError::ValueParseError(e) => prefixed("Redis Value Parse Error: ", e),
            RedisError::IndexOutOfBoundError => String::from_str("index is out of bound"),
            RedisError::CRLFNotFoundError => String::from_str("CRLF not found"),
            RedisError::UnknownCommand => String::from_str("Unknown command"),
            RedisError::KeyDoesNotExist => String::from_str("Key does not exist"),
            RedisError::ExpiredKey => String::from_str("Key has been expired"),
        }
    }
}

/// `head` followed by the text of `reason`.
fn prefixed(head: &str, reason: &ParseError) -> (text: String)
    ensures
        text@ == head@ + reason.spec_message(),
{
    let tail = reason.message();
    String::from_str(head).concat(tail.as_str())
}

impl From<Utf8Error> for RedisError {
    /// Bytes that are not UTF-8 are reported as a parse error of that
    /// reason.
    fn from(_e: Utf8Error) -> (err: RedisError) {
        RedisError::CommandParseError(ParseError::InvalidUTF)
    }
}

impl FromSpecImpl<Utf8Error> for RedisError {
    open spec fn obeys_from_spec() -> bool {
        true
    }

    open spec fn from_spec(_e: Utf8Error) -> RedisError {
        RedisError::CommandParseError(ParseError::InvalidUTF)
    }
}

} // verus!
