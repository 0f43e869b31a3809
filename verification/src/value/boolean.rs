//! The boolean kind: `#t` or `#f`, then the frame terminator.

use crate::constants::{CR, HASH, LF, LOWER_F, LOWER_T};
use crate::error::{ParseError, RedisError};
use crate::text::lemma_ascii_is_utf8;
use crate::value::deserialize::{Deserialize, WithIndex};
use crate::value::serialize::{frame_text, Serialize};
use crate::{check_crlf, crlf_at};
use vstd::prelude::*;

verus! {

/// A boolean value.
#[derive(Debug, Clone, Copy, PartialEq, Eq)]
pub struct Boolean(pub bool);

/// A decoded boolean with the span it was read from.
pub struct BooleanWithIndex {
    pub value: Boolean,
    pub index: (usize, usize),
}

/// The frame of a boolean.
pub open spec fn encode_boolean(b: bool) -> Seq<u8> {
    seq![HASH, if b { LOWER_T } else { LOWER_F }, CR, LF]
}

/// Reads a boolean frame from the front of `bytes`: the value and the
/// number of bytes taken.
pub open spec fn decode_boolean(bytes: Seq<u8>) -> Result<(bool, nat), RedisError> {
    if bytes.len() >= 2 && bytes[0] == HASH && (bytes[1] == LOWER_T || bytes[1] == LOWER_F)
        && crlf_at(bytes, 2) {
        Ok((bytes[1] == LOWER_T, 4nat))
    } else {
        Err(RedisError::BooleanParseError(ParseError::InvalidFormat))
    }
}

impl View for Boolean {
    type V = bool;

    open spec fn view(&self) -> bool {
        self.0
    }
}

/// A boolean frame decodes to its value and takes exactly its own length,
/// whatever follows it.
pub proof fn lemma_boolean_round_trip(b: bool, rest: Seq<u8>)
    ensures
        decode_boolean(encode_boolean(b) + rest) == Ok::<(bool, nat), RedisError>(
            (b, encode_boolean(b).len()),
        ),
{
}

impl Serialize for Boolean {
    open spec fn wire(&self) -> Seq<u8> {
        encode_boolean(self@)
    }

    proof fn lemma_wire_is_text(&self) {
        lemma_ascii_is_utf8(self.wire());
    }

    fn encode(&self) -> (out: Vec<u8>) {
        let mut out: Vec<u8> = Vec::new();
        out.push(HASH);
        out.push(if self.0 { LOWER_T } else { LOWER_F });
        out.push(CR);
        out.push(LF);
        assert(out@ =~= encode_boolean(self@));
        out
    }

    fn serialize(&self) -> (text: String) {
        proof {
            self.lemma_wire_is_text();
        }
        frame_text(self.encode())
    }
}

impl BooleanWithIndex {
    /// First and last position of the frame in the input.
    pub fn index(self) -> (index: (usize, usize))
        ensures
            index == self.index,
    {
        self.index
    }
}

impl WithIndex for BooleanWithIndex {
    open spec fn span(&self) -> (usize, usize) {
        self.index
    }

    fn get_index(self) -> (index: (usize, usize)) {
        self.index()
    }
}

impl Deserialize for Boolean {
    type Value = BooleanWithIndex;

    open spec fn frame_len(bytes: Seq<u8>) -> Result<nat, RedisError> {
        match decode_boolean(bytes) {
            Ok((_, len)) => Ok(len),
            Err(e) => Err(e),
        }
    }

    fn deserialize(bytes: &[u8]) -> (decoded: Result<BooleanWithIndex, RedisError>)
        ensures
            match decode_boolean(bytes@) {
                Ok((b, len)) => decoded matches Ok(found) && found.value@ == b && found.index.0 == 0 && found.index.1 + 1 == len,
                Err(reason) => decoded matches Err(e) && e == reason,
            },
    {
        if bytes.len() < 2 || bytes[0] != HASH {
            return Err(RedisError::BooleanParseError(ParseError::InvalidFormat));
        }
        let value = if bytes[1] == LOWER_T {
            true
        } else if bytes[1] == LOWER_F {
            false
        } else {
            return Err(RedisError::BooleanParseError(ParseError::InvalidFormat));
        };
        match check_crlf(bytes, 2) {
            Ok(true) => Ok(BooleanWithIndex { value: Boolean(value), index: (0, 3) }),
            _ => Err(RedisError::BooleanParseError(ParseError::InvalidFormat)),
        }
    }
}

} // verus!
