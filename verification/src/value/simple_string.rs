//! The simple string kind: `+`, one line of text, the frame terminator.

use crate::constants::{CR, LF, PLUS};
use crate::error::{ParseError, RedisError};
use crate::text::{lemma_ascii_is_utf8, lemma_unbroken_bytes, single_line, text_of, unbroken};
use crate::value::deserialize::{Deserialize, WithIndex};
use crate::value::serialize::{frame_text, Serialize};
use crate::{first_crlf, has_crlf, lemma_first_crlf_unique, lemma_line_end, line_end};
use vstd::prelude::*;
use vstd::slice::slice_subrange;
use vstd::string::*;
use vstd::utf8::*;

verus! {

/// A single line of text.
///
/// The text of a well-formed simple string holds neither a carriage return
/// nor a line feed: see [`SimpleString::wf`].
#[derive(Debug, PartialEq, Eq)]
pub struct SimpleString(pub String);

/// A decoded simple string with the span it was read from.
pub struct SimpleStringWithIndex {
    pub value: SimpleString,
    pub index: (usize, usize),
}

/// The frame of a simple string.
pub open spec fn encode_simple_string(s: Seq<char>) -> Seq<u8> {
    seq![PLUS] + encode_utf8(s) + seq![CR, LF]
}

/// Reads a simple string frame from the front of `bytes`: the text and the
/// number of bytes taken.
///
/// The text runs from behind the lead byte to the first frame terminator.
pub open spec fn decode_simple_string(bytes: Seq<u8>) -> Result<(Seq<char>, nat), RedisError> {
    if bytes.len() == 0 || bytes[0] != PLUS {
        Err(RedisError::SimpleStringParseError(ParseError::InvalidFormat))
    } else if !has_crlf(bytes, 1) {
        Err(RedisError::IndexOutOfBoundError)
    } else {
        let end = first_crlf(bytes, 1);
        let body = bytes.subrange(1, end);
        if valid_utf8(body) {
            Ok((decode_utf8(body), (end + 2) as nat))
        } else {
            Err(RedisError::SimpleStringParseError(ParseError::InvalidUTF))
        }
    }
}

/// A simple string frame decodes to its text and takes exactly its own
/// length, whatever follows it.
pub proof fn lemma_simple_string_round_trip(s: Seq<char>, rest: Seq<u8>)
    requires
        unbroken(s),
    ensures
        decode_simple_string(encode_simple_string(s) + rest) == Ok::<
            (Seq<char>, nat),
            RedisError,
        >((s, encode_simple_string(s).len())),
{
    broadcast use {encode_utf8_valid_utf8, encode_utf8_decode_utf8};

    let body = encode_utf8(s);
    let bytes = encode_simple_string(s) + rest;
    lemma_unbroken_bytes(s);
    lemma_line_end(seq![PLUS], body, rest);
    let end = 1 + body.len() as int;
    lemma_first_crlf_unique(bytes, 1, end);
    assert(bytes.subrange(1, end) =~= body);
}

/// The frame of a simple string is well-formed UTF-8.
pub proof fn lemma_simple_string_is_text(s: Seq<char>)
    ensures
        valid_utf8(encode_simple_string(s)),
{
    broadcast use encode_utf8_valid_utf8;

    lemma_ascii_is_utf8(seq![PLUS]);
    lemma_ascii_is_utf8(seq![CR, LF]);
    valid_utf8_concat(seq![PLUS], encode_utf8(s));
    valid_utf8_concat(seq![PLUS] + encode_utf8(s), seq![CR, LF]);
}

impl View for SimpleString {
    type V = Seq<char>;

    open spec fn view(&self) -> Seq<char> {
        self.0@
    }
}

impl Clone for SimpleString {
    fn clone(&self) -> (copy: SimpleString)
        ensures
            copy@ == self@,
    {
        SimpleString(self.0.clone())
    }
}

impl SimpleString {
    /// True where the text is a single line.
    pub open spec fn wf(&self) -> bool {
        single_line(self@)
    }
}

impl Serialize for SimpleString {
    open spec fn wire(&self) -> Seq<u8> {
        encode_simple_string(self@)
    }

    proof fn lemma_wire_is_text(&self) {
        lemma_simple_string_is_text(self@);
    }

    fn encode(&self) -> (out: Vec<u8>) {
        let mut out: Vec<u8> = Vec::new();
        out.push(PLUS);
        out.extend_from_slice(self.0.as_str().as_bytes());
        out.push(CR);
        out.push(LF);
        assert(out@ =~= encode_simple_string(self@));
        out
    }

    fn serialize(&self) -> (text: String) {
        proof {
            self.lemma_wire_is_text();
        }
        frame_text(self.encode())
    }
}

impl SimpleStringWithIndex {
    /// First and last position of the frame in the input.
    pub fn index(self) -> (index: (usize, usize))
        ensures
            index == self.index,
    {
        self.index
    }
}

impl WithIndex for SimpleStringWithIndex {
    open spec fn span(&self) -> (usize, usize) {
        self.index
    }

    fn get_index(self) -> (index: (usize, usize)) {
        self.index()
    }
}

impl Deserialize for SimpleString {
    type Value = SimpleStringWithIndex;

    open spec fn frame_len(bytes: Seq<u8>) -> Result<nat, RedisError> {
        match decode_simple_string(bytes) {
            Ok((_, len)) => Ok(len),
            Err(e) => Err(e),
        }
    }

    fn deserialize(bytes: &[u8]) -> (decoded: Result<SimpleStringWithIndex, RedisError>)
        ensures
            match decode_simple_string(bytes@) {
                Ok((s, len)) => decoded matches Ok(found) && found.value@ == s && found.index.0 == 0 && found.index.1 + 1 == len,
                Err(reason) => decoded matches Err(e) && e == reason,
            },
    {
        if bytes.len() == 0 || bytes[0] != PLUS {
            return Err(RedisError::SimpleStringParseError(ParseError::InvalidFormat));
        }
        let end = match line_end(bytes, 1) {
            Ok(end) => end,
            Err(e) => {
                return Err(e);
            },
        };
        proof {
            lemma_first_crlf_unique(bytes@, 1, end as int);
        }
        match text_of(slice_subrange(bytes, 1, end)) {
            Some(text) => Ok(SimpleStringWithIndex { value: SimpleString(text), index: (0, end + 1) }),
            None => Err(RedisError::SimpleStringParseError(ParseError::InvalidUTF)),
        }
    }
}

} // verus!
