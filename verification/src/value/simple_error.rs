//! The simple error kind: `-`, the kind of error, a blank, one line of
//! message, the frame terminator.

use crate::constants::{CR, DASH, LF, SPACE};
use crate::error::{ParseError, RedisError};
use crate::text::{
    lemma_ascii_is_utf8, lemma_unbroken_bytes, matches_word, same_ignoring_case, single_line,
    text_of, unbroken,
};
use crate::value::deserialize::{Deserialize, WithIndex};
use crate::value::serialize::{frame_text, Serialize};
use crate::{crlf_at, first_crlf, has_crlf, lemma_first_crlf_unique, lemma_line_end, line_end};
use vstd::prelude::*;
use vstd::slice::slice_subrange;
use vstd::std_specs::convert::TryFromSpecImpl;
use vstd::string::*;
use vstd::utf8::*;

verus! {

/// The kinds of error that a reply can carry.
#[derive(Debug, Clone, Copy, PartialEq, Eq, Structural)]
pub enum ErrorType {
    /// The general kind.
    ERR,
    /// An operation met a value of the wrong type.
    WRONGTYPE,
}

/// An error reply: its kind and one line of message.
///
/// The message of a well-formed simple error holds neither a carriage
/// return nor a line feed: see [`SimpleError::wf`].
#[derive(Debug, PartialEq, Eq)]
pub struct SimpleError {
    pub message: String,
    pub error_type: ErrorType,
}

/// A decoded simple error with the span it was read from.
pub struct SimpleErrorWithIndex {
    pub value: SimpleError,
    pub index: (usize, usize),
}

/// The kind that a word names, up to the case of its letters.
pub open spec fn kind_of_word(word: Seq<char>) -> Result<ErrorType, RedisError> {
    if same_ignoring_case(word, "ERR"@) {
        Ok(ErrorType::ERR)
    } else if same_ignoring_case(word, "WRONGTYPE"@) {
        Ok(ErrorType::WRONGTYPE)
    } else {
        Err(RedisError::SimpleErrorParseError(ParseError::UnknownValue))
    }
}

/// The kind that the bytes of a word name. Bytes that are not text name no
/// kind.
pub open spec fn kind_of_token(token: Seq<u8>) -> Result<ErrorType, RedisError> {
    if valid_utf8(token) {
        kind_of_word(decode_utf8(token))
    } else {
        Err(RedisError::SimpleErrorParseError(ParseError::UnknownValue))
    }
}

/// The frame of a simple error.
pub open spec fn encode_simple_error(kind: ErrorType, message: Seq<char>) -> Seq<u8> {
    seq![DASH] + encode_utf8(kind.name()) + seq![SPACE] + encode_utf8(message) + seq![CR, LF]
}

/// Reads a simple error frame from the front of `bytes`: the kind, the
/// message and the number of bytes taken.
///
/// The line runs from behind the lead byte to the first frame terminator.
/// Its first blank parts the kind from the message.
pub open spec fn decode_simple_error(bytes: Seq<u8>) -> Result<
    (ErrorType, Seq<char>, nat),
    RedisError,
> {
    if bytes.len() == 0 || bytes[0] != DASH {
        Err(RedisError::SimpleErrorParseError(ParseError::InvalidFormat))
    } else if !has_crlf(bytes, 1) {
        Err(RedisError::IndexOutOfBoundError)
    } else {
        let end = first_crlf(bytes, 1);
        let line = bytes.subrange(1, end);
        match line.index_of_first(SPACE) {
            None => Err(RedisError::SimpleErrorParseError(ParseError::InvalidFormat)),
            Some(blank) => match kind_of_token(line.take(blank)) {
                Err(e) => Err(e),
                Ok(kind) => {
                    let message = line.skip(blank + 1);
                    if valid_utf8(message) {
                        Ok((kind, decode_utf8(message), (end + 2) as nat))
                    } else {
                        Err(RedisError::SimpleErrorParseError(ParseError::InvalidUTF))
                    }
                },
            },
        }
    }
}

/// The name of a kind is a word of ASCII capitals, and reads back as the
/// kind.
pub proof fn lemma_kind_name(kind: ErrorType)
    ensures
        is_ascii_chars(kind.name()),
        kind.name().len() > 0,
        forall|i: int| 0 <= i < kind.name().len() ==> 65 <= #[trigger] kind.name()[i] as u32 <= 90,
        kind_of_word(kind.name()) == Ok::<ErrorType, RedisError>(kind),
{
    reveal_strlit("ERR");
    reveal_strlit("WRONGTYPE");
    assert(!same_ignoring_case("WRONGTYPE"@, "ERR"@));
}

/// A simple error frame decodes to its kind and message and takes exactly
/// its own length, whatever follows it.
pub proof fn lemma_simple_error_round_trip(kind: ErrorType, message: Seq<char>, rest: Seq<u8>)
    requires
        unbroken(message),
    ensures
        decode_simple_error(encode_simple_error(kind, message) + rest) == Ok::<
            (ErrorType, Seq<char>, nat),
            RedisError,
        >((kind, message, encode_simple_error(kind, message).len())),
{
    broadcast use {encode_utf8_valid_utf8, encode_utf8_decode_utf8, is_ascii_chars_encode_utf8};

    let word = encode_utf8(kind.name());
    let body = encode_utf8(message);
    let line = word + seq![SPACE] + body;
    let bytes = encode_simple_error(kind, message) + rest;
    let end = 1 + line.len() as int;
    lemma_kind_name(kind);
    lemma_unbroken_bytes(message);
    assert(bytes =~= seq![DASH] + line + seq![CR, LF] + rest);
    assert forall|i: int| !crlf_at(line, i) by {
        if crlf_at(line, i) {
            if i < word.len() {
                assert(line[i] == word[i]);
                assert(word[i] == kind.name()[i] as u8);
            } else if i > word.len() {
                assert(line[i] == body[i - word.len() - 1]);
                assert(line[i + 1] == body[i - word.len()]);
                assert(crlf_at(body, i - word.len() - 1));
            }
        }
    }
    lemma_line_end(seq![DASH], line, rest);
    lemma_first_crlf_unique(bytes, 1, end);
    assert(bytes.subrange(1, end) =~= line);
    line.index_of_first_ensures(SPACE);
    let blank = word.len() as int;
    assert(line[blank] == SPACE);
    assert(line.contains(SPACE));
    let found = line.index_of_first(SPACE).unwrap();
    assert(found == blank) by {
        if found < blank {
            assert(line[found] == word[found]);
            assert(word[found] == kind.name()[found] as u8);
        }
    }
    assert(line.take(blank) =~= word);
    assert(line.skip(blank + 1) =~= body);
}

/// The frame of a simple error is well-formed UTF-8.
pub proof fn lemma_simple_error_is_text(kind: ErrorType, message: Seq<char>)
    ensures
        valid_utf8(encode_simple_error(kind, message)),
{
    broadcast use encode_utf8_valid_utf8;

    let word = encode_utf8(kind.name());
    let body = encode_utf8(message);
    lemma_ascii_is_utf8(seq![DASH]);
    lemma_ascii_is_utf8(seq![SPACE]);
    lemma_ascii_is_utf8(seq![CR, LF]);
    valid_utf8_concat(seq![DASH], word);
    valid_utf8_concat(seq![DASH] + word, seq![SPACE]);
    valid_utf8_concat(seq![DASH] + word + seq![SPACE], body);
    valid_utf8_concat(seq![DASH] + word + seq![SPACE] + body, seq![CR, LF]);
}

impl ErrorType {
    /// The word that names this kind on the wire.
    pub open spec fn name(self) -> Seq<char> {
        match self {
            ErrorType::ERR => "ERR"@,
            ErrorType::WRONGTYPE => "WRONGTYPE"@,
        }
    }

    /// The word that names this kind on the wire.
    pub fn to_string(&self) -> (word: String)
        ensures
            word@ == self.name(),
    {
        match self {
            ErrorType::ERR => String::from_str("ERR"),
            ErrorType::WRONGTYPE => String::from_str("WRONGTYPE"),
        }
    }

    /// The kind that the bytes of a word name, up to the case of letters.
    pub fn from_token(token: &[u8]) -> (kind: Result<ErrorType, RedisError>)
        ensures
            kind == kind_of_token(token@),
    {
        broadcast use encode_utf8_decode_utf8;

        match core::str::from_utf8(token) {
            Ok(word) => ErrorType::try_from(word),
            Err(_) => Err(RedisError::SimpleErrorParseError(ParseError::UnknownValue)),
        }
    }
}

impl<'a> TryFrom<&'a str> for ErrorType {
    type Error = RedisError;

    /// The kind that a word names, up to the case of letters.
    fn try_from(value: &'a str) -> (kind: Result<ErrorType, RedisError>) {
        proof {
            reveal_strlit("ERR");
            reveal_strlit("WRONGTYPE");
        }
        if matches_word(value, "ERR") {
            Ok(ErrorType::ERR)
        } else if matches_word(value, "WRONGTYPE") {
            Ok(ErrorType::WRONGTYPE)
        } else {
            Err(RedisError::SimpleErrorParseError(ParseError::UnknownValue))
        }
    }
}

impl<'a> TryFromSpecImpl<&'a str> for ErrorType {
    open spec fn obeys_try_from_spec() -> bool {
        true
    }

    open spec fn try_from_spec(value: &'a str) -> Result<ErrorType, RedisError> {
        kind_of_word(value@)
    }
}

impl View for SimpleError {
    type V = (ErrorType, Seq<char>);

    open spec fn view(&self) -> (ErrorType, Seq<char>) {
        (self.error_type, self.message@)
    }
}

impl Clone for SimpleError {
    fn clone(&self) -> (copy: SimpleError)
        ensures
            copy@ == self@,
    {
        SimpleError { message: self.message.clone(), error_type: self.error_type }
    }
}

impl SimpleError {
    /// True where the message is a single line.
    pub open spec fn wf(&self) -> bool {
        single_line(self.message@)
    }
}

impl Serialize for SimpleError {
    open spec fn wire(&self) -> Seq<u8> {
        encode_simple_error(self.error_type, self.message@)
    }

    proof fn lemma_wire_is_text(&self) {
        lemma_simple_error_is_text(self.error_type, self.message@);
    }

    fn encode(&self) -> (out: Vec<u8>) {
        let word = self.error_type.to_string();
        let mut out: Vec<u8> = Vec::new();
        out.push(DASH);
        out.extend_from_slice(word.as_str().as_bytes());
        out.push(SPACE);
        out.extend_from_slice(self.message.as_str().as_bytes());
        out.push(CR);
        out.push(LF);
        assert(out@ =~= encode_simple_error(self.error_type, self.message@));
        out
    }

    fn serialize(&self) -> (text: String) {
        proof {
            self.lemma_wire_is_text();
        }
        frame_text(self.encode())
    }
}

impl SimpleErrorWithIndex {
    /// First and last position of the frame in the input.
    pub fn index(self) -> (index: (usize, usize))
        ensures
            index == self.index,
    {
        self.index
    }
}

impl WithIndex for SimpleErrorWithIndex {
    open spec fn span(&self) -> (usize, usize) {
        self.index
    }

    fn get_index(self) -> (index: (usize, usize)) {
        self.index()
    }
}

impl Deserialize for SimpleError {
    type Value = SimpleErrorWithIndex;

    open spec fn frame_len(bytes: Seq<u8>) -> Result<nat, RedisError> {
        match decode_simple_error(bytes) {
            Ok((_, _, len)) => Ok(len),
            Err(e) => Err(e),
        }
    }

    fn deserialize(bytes: &[u8]) -> (decoded: Result<SimpleErrorWithIndex, RedisError>)
        ensures
            match decode_simple_error(bytes@) {
                Ok((kind, message, len)) => decoded matches Ok(found) && found.value@ == (
                    kind,
                    message,
                ) && found.index.0 == 0 && found.index.1 + 1 == len,
                Err(reason) => decoded matches Err(e) && e == reason,
            },
    {
        if bytes.len() == 0 || bytes[0] != DASH {
            return Err(RedisError::SimpleErrorParseError(ParseError::InvalidFormat));
        }
        let end = match line_end(bytes, 1) {
            Ok(end) => end,
            Err(e) => {
                return Err(e);
            },
        };
        let ghost line = bytes@.subrange(1, end as int);
        proof {
            lemma_first_crlf_unique(bytes@, 1, end as int);
            line.index_of_first_ensures(SPACE);
        }
        let mut blank: usize = 1;
        while blank < end && bytes[blank] != SPACE
            invariant
                1 <= blank <= end < bytes@.len(),
                line == bytes@.subrange(1, end as int),
                forall|j: int| 0 <= j < blank - 1 ==> line[j] != SPACE,
            decreases end - blank,
        {
            blank = blank + 1;
        }
        if blank == end {
            assert(!line.contains(SPACE));
            return Err(RedisError::SimpleErrorParseError(ParseError::InvalidFormat));
        }
        proof {
            assert(line[blank - 1] == SPACE);
            assert(line.contains(SPACE));
            let first = line.index_of_first(SPACE).unwrap();
            assert(first == blank - 1);
            assert(bytes@.subrange(1, blank as int) =~= line.take(blank - 1));
            assert(bytes@.subrange(blank + 1, end as int) =~= line.skip(blank as int));
        }
        let error_type = match ErrorType::from_token(slice_subrange(bytes, 1, blank)) {
            Ok(kind) => kind,
            Err(e) => {
                return Err(e);
            },
        };
        match text_of(slice_subrange(bytes, blank + 1, end)) {
            Some(message) => Ok(
                SimpleErrorWithIndex {
                    value: SimpleError { message, error_type },
                    index: (0, end + 1),
                },
            ),
            None => Err(RedisError::SimpleErrorParseError(ParseError::InvalidUTF)),
        }
    }
}

} // verus!
