//! The integer kind: `:`, a signed decimal numeral, the frame terminator.

use crate::constants::{COLON, CR, LF};
use crate::decimal::{
    lemma_parse_signed_decimal, lemma_signed_decimal_bytes, parse_i64, parse_signed,
    signed_decimal, signed_decimal_digits,
};
use crate::error::{ParseError, RedisError};
use crate::text::lemma_ascii_is_utf8;
use crate::value::deserialize::{Deserialize, WithIndex};
use crate::value::serialize::{frame_text, Serialize};
use crate::{
    first_crlf, has_crlf, lemma_first_crlf_unique, lemma_line_end, lemma_plain_line, line_end,
};
use vstd::prelude::*;
use vstd::slice::slice_subrange;
use vstd::string::*;
use vstd::utf8::*;

verus! {

/// A signed 64-bit integer.
#[derive(Debug, Clone, Copy, PartialEq, Eq)]
pub struct Integer(pub i64);

/// A decoded integer with the span it was read from.
#[derive(Debug)]
pub struct IntegerWithIndex {
    pub value: Integer,
    pub index: (usize, usize),
}

/// The frame of an integer.
pub open spec fn encode_integer(n: i64) -> Seq<u8> {
    seq![COLON] + signed_decimal(n as int) + seq![CR, LF]
}

/// Reads an integer frame from the front of `bytes`: the number and the
/// number of bytes taken.
///
/// The numeral runs from behind the lead byte to the first frame
/// terminator. It is made of digits, with at most a minus sign in front, and
/// must fit in 64 bits.
pub open spec fn decode_integer(bytes: Seq<u8>) -> Result<(i64, nat), RedisError> {
    if bytes.len() == 0 || bytes[0] != COLON {
        Err(RedisError::IntegerParseError(ParseError::InvalidFormat))
    } else if !has_crlf(bytes, 1) {
        Err(RedisError::IndexOutOfBoundError)
    } else {
        let end = first_crlf(bytes, 1);
        let numeral = bytes.subrange(1, end);
        if !valid_utf8(numeral) {
            Err(RedisError::CommandParseError(ParseError::InvalidUTF))
        } else {
            match parse_signed(numeral) {
                Some(n) => Ok((n, (end + 2) as nat)),
                None => Err(RedisError::CommandParseError(ParseError::InvalidFormat)),
            }
        }
    }
}

/// An integer frame decodes to its number and takes exactly its own length,
/// whatever follows it.
pub proof fn lemma_integer_round_trip(n: i64, rest: Seq<u8>)
    ensures
        decode_integer(encode_integer(n) + rest) == Ok::<(i64, nat), RedisError>(
            (n, encode_integer(n).len()),
        ),
{
    let numeral = signed_decimal(n as int);
    let bytes = encode_integer(n) + rest;
    let end = 1 + numeral.len() as int;
    lemma_signed_decimal_bytes(n as int);
    lemma_plain_line(numeral);
    lemma_line_end(seq![COLON], numeral, rest);
    lemma_first_crlf_unique(bytes, 1, end);
    assert(bytes.subrange(1, end) =~= numeral);
    lemma_ascii_is_utf8(numeral);
    lemma_parse_signed_decimal(n);
}

/// The frame of an integer is well-formed UTF-8.
pub proof fn lemma_integer_is_text(n: i64)
    ensures
        valid_utf8(encode_integer(n)),
{
    lemma_signed_decimal_bytes(n as int);
    lemma_ascii_is_utf8(encode_integer(n));
}

impl View for Integer {
    type V = i64;

    open spec fn view(&self) -> i64 {
        self.0
    }
}

impl Serialize for Integer {
    open spec fn wire(&self) -> Seq<u8> {
        encode_integer(self@)
    }

    proof fn lemma_wire_is_text(&self) {
        lemma_integer_is_text(self@);
    }

    fn encode(&self) -> (out: Vec<u8>) {
        let mut out: Vec<u8> = Vec::new();
        out.push(COLON);
        let mut numeral = signed_decimal_digits(self.0);
        out.append(&mut numeral);
        out.push(CR);
        out.push(LF);
        assert(out@ =~= encode_integer(self@));
        out
    }

    fn serialize(&self) -> (text: String) {
        proof {
            self.lemma_wire_is_text();
        }
        frame_text(self.encode())
    }
}

impl IntegerWithIndex {
    /// First and last position of the frame in the input.
    pub fn index(self) -> (index: (usize, usize))
        ensures
            index == self.index,
    {
        self.index
    }
}

impl WithIndex for IntegerWithIndex {
    open spec fn span(&self) -> (usize, usize) {
        self.index
    }

    fn get_index(self) -> (index: (usize, usize)) {
        self.index()
    }
}

impl Deserialize for Integer {
    type Value = IntegerWithIndex;

    open spec fn frame_len(bytes: Seq<u8>) -> Result<nat, RedisError> {
        match decode_integer(bytes) {
            Ok((_, len)) => Ok(len),
            Err(e) => Err(e),
        }
    }

    fn deserialize(bytes: &[u8]) -> (decoded: Result<IntegerWithIndex, RedisError>)
        ensures
            match decode_integer(bytes@) {
                Ok((n, len)) => decoded matches Ok(found) && found.value@ == n && found.index.0 == 0 && found.index.1 + 1 == len,
                Err(reason) => decoded matches Err(e) && e == reason,
            },
    {
        if bytes.len() == 0 || bytes[0] != COLON {
            return Err(RedisError::IntegerParseError(ParseError::InvalidFormat));
        }
        let end = match line_end(bytes, 1) {
            Ok(end) => end,
            Err(e) => {
                return Err(e);
            },
        };
        proof {
            lemma_first_crlf_unique(bytes@, 1, end as int);
        }
        let numeral = match core::str::from_utf8(slice_subrange(bytes, 1, end)) {
            Ok(numeral) => numeral,
            Err(e) => {
                return Err(RedisError::from(e));
            },
        };
        match parse_i64(numeral.as_bytes()) {
            Some(n) => Ok(IntegerWithIndex { value: Integer(n), index: (0, end + 1) }),
            None => Err(RedisError::CommandParseError(ParseError::InvalidFormat)),
        }
    }
}

} // verus!
