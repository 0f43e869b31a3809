//! The null reply: `_`, then the frame terminator.

use crate::constants::{CR, LF, UNDERSCORE};
use crate::error::{ParseError, RedisError};
use crate::text::lemma_ascii_is_utf8;
use crate::value::deserialize::{Deserialize, WithIndex};
use crate::value::serialize::{frame_text, Serialize};
use crate::{check_crlf, spec_check_crlf};
use vstd::prelude::*;

verus! {

/// The null reply. It stands for "nothing there" in answers of the server;
/// requests never hold it.
#[derive(Debug, Clone, Copy, PartialEq, Eq)]
pub struct Nulls;

/// A decoded null with the span it was read from.
pub struct NullsWithIndex {
    pub value: Nulls,
    pub index: (usize, usize),
}

/// The frame of the null reply.
pub open spec fn encode_nulls() -> Seq<u8> {
    seq![UNDERSCORE, CR, LF]
}

/// Reads a null frame from the front of `bytes`: the number of bytes taken.
pub open spec fn decode_nulls(bytes: Seq<u8>) -> Result<nat, RedisError> {
    if bytes.len() == 0 || bytes[0] != UNDERSCORE {
        Err(RedisError::NullsParseError(ParseError::InvalidFormat))
    } else {
        match spec_check_crlf(bytes, 1) {
            Err(e) => Err(e),
            Ok(false) => Err(RedisError::NullsParseError(ParseError::InvalidFormat)),
            Ok(true) => Ok(3nat),
        }
    }
}

/// A null frame decodes and takes exactly its own length, whatever follows
/// it.
pub proof fn law_nulls_round_trip(rest: Seq<u8>)
    ensures
        decode_nulls(encode_nulls() + rest) == Ok::<nat, RedisError>(encode_nulls().len()),
{
}

impl Serialize for Nulls {
    open spec fn wire(&self) -> Seq<u8> {
        encode_nulls()
    }

    proof fn lemma_wire_is_text(&self) {
        lemma_ascii_is_utf8(self.wire());
    }

    fn encode(&self) -> (out: Vec<u8>) {
        let mut out: Vec<u8> = Vec::new();
        out.push(UNDERSCORE);
        out.push(CR);
        out.push(LF);
        assert(out@ =~= encode_nulls());
        out
    }

    fn serialize(&self) -> (text: String) {
        proof {
            self.lemma_wire_is_text();
        }
        frame_text(self.encode())
    }
}

impl NullsWithIndex {
    /// First and last position of the frame in the input.
    pub fn index(self) -> (index: (usize, usize))
        ensures
            index == self.index,
    {
        self.index
    }
}

impl WithIndex for NullsWithIndex {
    open spec fn span(&self) -> (usize, usize) {
        self.index
    }

    fn get_index(self) -> (index: (usize, usize)) {
        self.index()
    }
}

impl Deserialize for Nulls {
    type Value = NullsWithIndex;

    open spec fn frame_len(bytes: Seq<u8>) -> Result<nat, RedisError> {
        decode_nulls(bytes)
    }

    fn deserialize(bytes: &[u8]) -> (decoded: Result<NullsWithIndex, RedisError>)
        ensures
            match decode_nulls(bytes@) {
                Ok(len) => decoded matches Ok(found) && found.index.0 == 0 && found.index.1 + 1 == len,
                Err(reason) => decoded matches Err(e) && e == reason,
            },
    {
        if bytes.len() == 0 || bytes[0] != UNDERSCORE {
            return Err(RedisError::NullsParseError(ParseError::InvalidFormat));
        }
        match check_crlf(bytes, 1) {
            Err(e) => Err(e),
            Ok(false) => Err(RedisError::NullsParseError(ParseError::InvalidFormat)),
            Ok(true) => Ok(NullsWithIndex { value: Nulls, index: (0, 2) }),
        }
    }
}

} // verus!
