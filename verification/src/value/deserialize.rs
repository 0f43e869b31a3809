//! The decoding interface shared by every kind of value.

use crate::constants::CR;
use crate::decimal::{parse_decimal, parse_unsigned};
use crate::error::{ParseError, RedisError};
use crate::{
    first_crlf, has_crlf, is_nth_crlf, lemma_crlf_count_zero, lemma_first_crlf_exists,
    lemma_first_crlf_unique, read_until_crlf,
};
use vstd::prelude::*;
use vstd::slice::slice_subrange;
use vstd::string::*;
use vstd::utf8::*;

verus! {

/// Implemented by the outcome of a decode: the value together with the
/// span of input it was read from.
pub trait WithIndex: Sized {
    /// First and last position of the frame in the input.
    spec fn span(&self) -> (usize, usize);

    /// First and last position of the frame in the input.
    fn get_index(self) -> (index: (usize, usize))
        ensures
            index == self.span(),
    ;
}

/// Decoding of one kind of value from the front of a buffer.
pub trait Deserialize {
    /// What a successful decode hands back.
    type Value: WithIndex;

    /// Number of bytes that the frame at the front of `bytes` takes, or the
    /// reason why no frame of this kind stands there.
    spec fn frame_len(bytes: Seq<u8>) -> Result<nat, RedisError>;

    /// Reads one value from the front of `bytes`.
    ///
    /// Succeeds exactly where `frame_len` gives a length; the span then runs
    /// from position zero to the last byte of the frame. Bytes after the
    /// frame are not looked at.
    fn deserialize(bytes: &[u8]) -> (decoded: Result<Self::Value, RedisError>)
        ensures
            match Self::frame_len(bytes@) {
                Ok(len) => decoded matches Ok(found) && found.span().0 == 0 && found.span().1 + 1
                    == len,
                Err(reason) => decoded matches Err(e) && e == reason,
            },
    ;
}

/// Reads the length header that opens a bulk string or an array: the lead
/// byte, an unsigned decimal count, and the frame terminator. Gives the
/// count and the position behind the header.
///
/// Where the input holds no frame terminator, the error tells whether the
/// input ends in a lone carriage return or not.
pub open spec fn decode_header(bytes: Seq<u8>) -> Result<(nat, nat), RedisError> {
    if !has_crlf(bytes, 0) {
        if bytes.len() > 0 && bytes.last() == CR {
            Err(RedisError::IndexOutOfBoundError)
        } else {
            Err(RedisError::CRLFNotFoundError)
        }
    } else {
        let end = first_crlf(bytes, 0);
        let digits = bytes.subrange(1, end);
        if !valid_utf8(digits) {
            Err(RedisError::CommandParseError(ParseError::InvalidUTF))
        } else {
            match parse_unsigned(digits, usize::MAX as nat) {
                Some(count) => Ok((count, (end + 2) as nat)),
                None => Err(RedisError::CommandParseError(ParseError::InvalidFormat)),
            }
        }
    }
}

/// Reads the length header that opens a bulk string or an array. The
/// caller has looked at the lead byte.
pub(crate) fn read_header(bytes: &[u8]) -> (header: Result<(usize, usize), RedisError>)
    requires
        bytes@.len() > 0,
        bytes@[0] != CR,
    ensures
        match decode_header(bytes@) {
            Ok((count, next)) => header == Ok::<(usize, usize), RedisError>(
                (count as usize, next as usize),
            ) && 3 <= next <= bytes@.len(),
            Err(reason) => header matches Err(e) && e == reason,
        },
{
    let len = bytes.len();
    let end = match read_until_crlf(bytes, 1) {
        Ok(end) => end,
        Err(e) => {
            proof {
                if has_crlf(bytes@, 0) {
                    lemma_first_crlf_exists(bytes@, 0);
                    let first = first_crlf(bytes@, 0);
                    lemma_crlf_count_zero(bytes@, first);
                    assert(is_nth_crlf(bytes@, 1, first));
                }
            }
            return Err(e);
        },
    };
    proof {
        lemma_crlf_count_zero(bytes@, end as int);
        lemma_first_crlf_unique(bytes@, 0, end as int);
        assert(1 <= end && end + 2 <= len);
    }
    let digits = match core::str::from_utf8(slice_subrange(bytes, 1, end)) {
        Ok(digits) => digits,
        Err(e) => {
            return Err(RedisError::from(e));
        },
    };
    match parse_decimal(digits.as_bytes(), usize::MAX as u128) {
        Some(count) => Ok((count as usize, end + 2)),
        None => Err(RedisError::CommandParseError(ParseError::InvalidFormat)),
    }
}

} // verus!
