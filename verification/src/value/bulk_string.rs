//! The bulk string kind: `$`, the length of the text in bytes, the frame
//! terminator, the text, and the frame terminator again.

use crate::constants::{CR, DOLLAR, LF};
use crate::decimal::{decimal, decimal_digits, lemma_decimal_reads_back};
use crate::error::{ParseError, RedisError};
use crate::text::{lemma_ascii_is_utf8, text_of};
use crate::value::deserialize::{decode_header, read_header, Deserialize, WithIndex};
use crate::value::serialize::{frame_text, Serialize};
use crate::{
    check_crlf, crlf_at, is_first_crlf, lemma_first_crlf_unique, lemma_line_end, lemma_plain_line,
    spec_check_crlf,
};
use vstd::prelude::*;
use vstd::slice::slice_subrange;
use vstd::string::*;
use vstd::utf8::*;

verus! {

/// A piece of text of known length. The text may hold any character, frame
/// terminators included.
#[derive(Debug, PartialEq, Eq)]
pub struct BulkString(pub String);

/// A decoded bulk string with the span it was read from.
pub struct BulkStringWithIndex {
    pub value: BulkString,
    pub index: (usize, usize),
}

/// The frame of a bulk string.
pub open spec fn encode_bulk_string(s: Seq<char>) -> Seq<u8> {
    seq![DOLLAR] + decimal(encode_utf8(s).len()) + seq![CR, LF] + encode_utf8(s) + seq![CR, LF]
}

/// Reads a bulk string frame from the front of `bytes`: the text and the
/// number of bytes taken.
///
/// The header gives the length of the text in bytes. That many bytes are
/// taken as they are, and a frame terminator must follow them.
pub open spec fn decode_bulk_string(bytes: Seq<u8>) -> Result<(Seq<char>, nat), RedisError> {
    if bytes.len() == 0 || bytes[0] != DOLLAR {
        Err(RedisError::BulkStringParseError(ParseError::InvalidFormat))
    } else {
        match decode_header(bytes) {
            Err(e) => Err(e),
            Ok((count, start)) => {
                if bytes.len() - start < count {
                    Err(RedisError::BulkStringParseError(ParseError::InvalidFormat))
                } else {
                    match spec_check_crlf(bytes, (start + count) as int) {
                        Err(e) => Err(e),
                        Ok(false) => Err(RedisError::BulkStringParseError(ParseError::InvalidFormat)),
                        Ok(true) => {
                            let body = bytes.subrange(start as int, (start + count) as int);
                            if valid_utf8(body) {
                                Ok((decode_utf8(body), start + count + 2))
                            } else {
                                Err(RedisError::BulkStringParseError(ParseError::InvalidUTF))
                            }
                        },
                    }
                }
            },
        }
    }
}

/// A header written with `decimal` reads back as the count it was written
/// for, and ends where the numeral ends.
pub proof fn lemma_header_round_trip(lead: u8, count: nat, rest: Seq<u8>)
    requires
        lead != CR,
        count <= usize::MAX,
    ensures
        decode_header(seq![lead] + decimal(count) + seq![CR, LF] + rest) == Ok::<
            (nat, nat),
            RedisError,
        >((count, decimal(count).len() + 3)),
{
    let numeral = decimal(count);
    let bytes = seq![lead] + numeral + seq![CR, LF] + rest;
    let end = 1 + numeral.len() as int;
    lemma_decimal_reads_back(count);
    lemma_plain_line(numeral);
    lemma_line_end(seq![lead], numeral, rest);
    assert(is_first_crlf(bytes, 0, end)) by {
        assert(!crlf_at(bytes, 0));
    }
    lemma_first_crlf_unique(bytes, 0, end);
    assert(bytes.subrange(1, end) =~= numeral);
    lemma_ascii_is_utf8(numeral);
}

/// A bulk string frame decodes to its text and takes exactly its own
/// length, whatever follows it.
pub proof fn lemma_bulk_string_round_trip(s: Seq<char>, rest: Seq<u8>)
    requires
        encode_utf8(s).len() <= usize::MAX,
    ensures
        decode_bulk_string(encode_bulk_string(s) + rest) == Ok::<(Seq<char>, nat), RedisError>(
            (s, encode_bulk_string(s).len()),
        ),
{
    broadcast use {encode_utf8_valid_utf8, encode_utf8_decode_utf8};

    let body = encode_utf8(s);
    let numeral = decimal(body.len());
    let bytes = encode_bulk_string(s) + rest;
    let tail = body + seq![CR, LF] + rest;
    assert(bytes =~= seq![DOLLAR] + numeral + seq![CR, LF] + tail);
    lemma_header_round_trip(DOLLAR, body.len(), tail);
    let start = numeral.len() as int + 3;
    let end = start + body.len() as int;
    assert(bytes.subrange(start, end) =~= body);
    assert(bytes[end] == CR);
    assert(bytes[end + 1] == LF);
}

/// The frame of a bulk string is well-formed UTF-8.
pub proof fn lemma_bulk_string_is_text(s: Seq<char>)
    ensures
        valid_utf8(encode_bulk_string(s)),
{
    broadcast use encode_utf8_valid_utf8;

    let body = encode_utf8(s);
    let head = seq![DOLLAR] + decimal(body.len()) + seq![CR, LF];
    lemma_decimal_reads_back(body.len());
    lemma_ascii_is_utf8(head);
    lemma_ascii_is_utf8(seq![CR, LF]);
    valid_utf8_concat(head, body);
    valid_utf8_concat(head + body, seq![CR, LF]);
}

impl View for BulkString {
    type V = Seq<char>;

    open spec fn view(&self) -> Seq<char> {
        self.0@
    }
}

impl Clone for BulkString {
    fn clone(&self) -> (copy: BulkString)
        ensures
            copy@ == self@,
    {
        BulkString(self.0.clone())
    }
}

impl Serialize for BulkString {
    open spec fn wire(&self) -> Seq<u8> {
        encode_bulk_string(self@)
    }

    proof fn lemma_wire_is_text(&self) {
        lemma_bulk_string_is_text(self@);
    }

    fn encode(&self) -> (out: Vec<u8>) {
        let body = self.0.as_str().as_bytes();
        let mut out: Vec<u8> = Vec::new();
        out.push(DOLLAR);
        let mut numeral = decimal_digits(body.len() as u128);
        out.append(&mut numeral);
        out.push(CR);
        out.push(LF);
        out.extend_from_slice(body);
        out.push(CR);
        out.push(LF);
        assert(out@ =~= encode_bulk_string(self@));
        out
    }

    fn serialize(&self) -> (text: String) {
        proof {
            self.lemma_wire_is_text();
        }
        frame_text(self.encode())
    }
}

impl BulkStringWithIndex {
    /// First and last position of the frame in the input.
    pub fn index(self) -> (index: (usize, usize))
        ensures
            index == self.index,
    {
        self.index
    }
}

impl WithIndex for BulkStringWithIndex {
    open spec fn span(&self) -> (usize, usize) {
        self.index
    }

    fn get_index(self) -> (index: (usize, usize)) {
        self.index()
    }
}

impl Deserialize for BulkString {
    type Value = BulkStringWithIndex;

    open spec fn frame_len(bytes: Seq<u8>) -> Result<nat, RedisError> {
        match decode_bulk_string(bytes) {
            Ok((_, len)) => Ok(len),
            Err(e) => Err(e),
        }
    }

    fn deserialize(bytes: &[u8]) -> (decoded: Result<BulkStringWithIndex, RedisError>)
        ensures
            match decode_bulk_string(bytes@) {
                Ok((s, len)) => decoded matches Ok(found) && found.value@ == s && found.index.0 == 0 && found.index.1 + 1 == len,
                Err(reason) => decoded matches Err(e) && e == reason,
            },
    {
        let len = bytes.len();
        if len == 0 || bytes[0] != DOLLAR {
            return Err(RedisError::BulkStringParseError(ParseError::InvalidFormat));
        }
        let (count, start) = match read_header(bytes) {
            Ok(header) => header,
            Err(e) => {
                return Err(e);
            },
        };
        if len - start < count {
            return Err(RedisError::BulkStringParseError(ParseError::InvalidFormat));
        }
        match check_crlf(bytes, start + count) {
            Err(e) => Err(e),
            Ok(false) => Err(RedisError::BulkStringParseError(ParseError::InvalidFormat)),
            Ok(true) => match text_of(slice_subrange(bytes, start, start + count)) {
                Some(text) => Ok(
                    BulkStringWithIndex { value: BulkString(text), index: (0, start + count + 1) },
                ),
                None => Err(RedisError::BulkStringParseError(ParseError::InvalidUTF)),
            },
        }
    }
}

} // verus!
