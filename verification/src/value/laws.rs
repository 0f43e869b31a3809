//! Laws that tie encoding and decoding together.

use crate::constants::{CR, LF, STAR};
use crate::decimal::{decimal, lemma_decimal_reads_back};
use crate::error::RedisError;
use crate::text::lemma_ascii_is_utf8;
use crate::value::array::{decode_items, encode_items, lemma_header_end};
use crate::value::boolean::{encode_boolean, lemma_boolean_round_trip};
use crate::value::bulk_string::{
    lemma_bulk_string_is_text, lemma_bulk_string_round_trip, lemma_header_round_trip,
};
use crate::value::deserialize::decode_header;
use crate::value::integer::{lemma_integer_is_text, lemma_integer_round_trip};
use crate::value::nulls::encode_nulls;
use crate::value::simple_error::{lemma_simple_error_is_text, lemma_simple_error_round_trip};
use crate::value::simple_string::{lemma_simple_string_is_text, lemma_simple_string_round_trip};
use crate::value::{decode, encode, Resp};
use crate::{has_crlf, lemma_first_crlf_exists};
use vstd::prelude::*;
use vstd::utf8::*;

verus! {

/// A frame that was read took at least one byte, and no more bytes than the
/// input holds.
pub proof fn lemma_decode_takes(bytes: Seq<u8>)
    ensures
        decode(bytes) matches Ok((_, taken)) ==> 0 < taken <= bytes.len(),
    decreases bytes.len(), 1nat, 0nat,
{
    if bytes.len() > 0 {
        if has_crlf(bytes, 1) {
            lemma_first_crlf_exists(bytes, 1);
        }
        if bytes[0] != CR {
            lemma_header_end(bytes);
        }
        if bytes[0] == STAR {
            match decode_header(bytes) {
                Ok((count, start)) => {
                    lemma_items_take(bytes.skip(start as int), count);
                },
                Err(_) => {},
            }
        }
    }
}

/// A run of frames that was read took no more bytes than the input holds,
/// and gave as many values as were asked for.
pub proof fn lemma_items_take(bytes: Seq<u8>, count: nat)
    ensures
        decode_items(bytes, count) matches Ok((items, taken)) ==> taken <= bytes.len()
            && items.len() == count,
    decreases bytes.len(), 2nat, count,
{
    if count > 0 {
        lemma_decode_takes(bytes);
        match decode(bytes) {
            Ok((_, taken)) => {
                lemma_items_take(bytes.skip(taken as int), (count - 1) as nat);
            },
            Err(_) => {},
        }
    }
}

/// Every frame is well-formed UTF-8.
pub proof fn lemma_encode_is_text(v: Resp)
    ensures
        valid_utf8(encode(v)),
    decreases v, 0nat,
{
    match v {
        Resp::SimpleString(s) => {
            lemma_simple_string_is_text(s);
        },
        Resp::SimpleError(kind, message) => {
            lemma_simple_error_is_text(kind, message);
        },
        Resp::Integer(n) => {
            lemma_integer_is_text(n);
        },
        Resp::BulkString(s) => {
            lemma_bulk_string_is_text(s);
        },
        Resp::Array(items) => {
            let head = seq![STAR] + decimal(items.len()) + seq![CR, LF];
            lemma_decimal_reads_back(items.len());
            lemma_ascii_is_utf8(head);
            lemma_items_are_text(items, 0);
            valid_utf8_concat(head, encode_items(items, 0));
        },
        Resp::Boolean(b) => {
            lemma_ascii_is_utf8(encode_boolean(b));
        },
        Resp::Nulls => {
            lemma_ascii_is_utf8(encode_nulls());
        },
    }
}

/// The frames of a run of items, one after another, are well-formed UTF-8.
pub proof fn lemma_items_are_text(items: Seq<Resp>, from: nat)
    ensures
        valid_utf8(encode_items(items, from)),
    decreases items, items.len() - from,
{
    if from < items.len() {
        lemma_encode_is_text(items[from as int]);
        lemma_items_are_text(items, from + 1);
        valid_utf8_concat(encode(items[from as int]), encode_items(items, from + 1));
    }
}

/// A frame followed by anything decodes to the value it was written for
/// and takes exactly its own length.
///
/// This holds of every representable value. Nothing is asked of what
/// follows the frame.
pub proof fn lemma_decode_encode(v: Resp, rest: Seq<u8>)
    requires
        v.representable(),
    ensures
        decode(encode(v) + rest) == Ok::<(Resp, nat), RedisError>((v, encode(v).len())),
    decreases v, 0nat,
{
    let bytes = encode(v) + rest;
    match v {
        Resp::SimpleString(s) => {
            lemma_simple_string_round_trip(s, rest);
        },
        Resp::SimpleError(kind, message) => {
            lemma_simple_error_round_trip(kind, message, rest);
        },
        Resp::Integer(n) => {
            lemma_integer_round_trip(n, rest);
        },
        Resp::BulkString(s) => {
            lemma_bulk_string_round_trip(s, rest);
        },
        Resp::Array(items) => {
            let body = encode_items(items, 0);
            let start = decimal(items.len()).len() + 3;
            assert(bytes =~= seq![STAR] + decimal(items.len()) + seq![CR, LF] + (body + rest));
            lemma_header_round_trip(STAR, items.len(), body + rest);
            assert(bytes.skip(start as int) =~= body + rest);
            lemma_decode_encode_items(items, 0, rest);
            assert(items.skip(0) =~= items);
        },
        Resp::Boolean(b) => {
            lemma_boolean_round_trip(b, rest);
        },
        Resp::Nulls => {},
    }
}

/// The frames of a run of items, followed by anything, decode to the items
/// and take exactly their own length.
pub proof fn lemma_decode_encode_items(items: Seq<Resp>, from: nat, rest: Seq<u8>)
    requires
        from <= items.len(),
        forall|i: int| 0 <= i < items.len() ==> (#[trigger] items[i]).representable(),
    ensures
        decode_items(encode_items(items, from) + rest, (items.len() - from) as nat) == Ok::<
            (Seq<Resp>, nat),
            RedisError,
        >((items.skip(from as int), encode_items(items, from).len())),
    decreases items, items.len() - from,
{
    if from < items.len() {
        let first = items[from as int];
        let tail = encode_items(items, from + 1) + rest;
        let bytes = encode_items(items, from) + rest;
        assert(bytes =~= encode(first) + tail);
        lemma_decode_encode(first, tail);
        lemma_decode_takes(bytes);
        assert(bytes.skip(encode(first).len() as int) =~= tail);
        lemma_decode_encode_items(items, from + 1, rest);
        assert(seq![first] + items.skip(from as int + 1) =~= items.skip(from as int));
    } else {
        assert(items.skip(from as int) =~= Seq::<Resp>::empty());
    }
}

/// A well-formed value that holds no null reply is representable.
pub proof fn law_well_formed_is_representable(v: Resp)
    requires
        v.wf(),
        v.null_free(),
    ensures
        v.representable(),
    decreases v,
{
    match v {
        Resp::Array(items) => {
            assert forall|i: int| 0 <= i < items.len() implies (#[trigger] items[i])
                .representable() by {
                law_well_formed_is_representable(items[i]);
            }
        },
        _ => {},
    }
}

/// Round trip: decoding the frame of a representable value gives the value
/// back, and takes the whole frame.
pub proof fn law_round_trip(v: Resp)
    requires
        v.representable(),
    ensures
        decode(encode(v)) == Ok::<(Resp, nat), RedisError>((v, encode(v).len())),
{
    lemma_decode_encode(v, Seq::<u8>::empty());
    assert(encode(v) + Seq::<u8>::empty() =~= encode(v));
}

/// Framing: of two frames written one after the other, decoding gives the
/// first value and takes the first frame only. What is left is the second
/// frame, untouched; where the second value is representable too, it
/// decodes to that value.
pub proof fn law_framing(first: Resp, second: Resp)
    requires
        first.representable(),
    ensures
        decode(encode(first) + encode(second)) == Ok::<(Resp, nat), RedisError>(
            (first, encode(first).len()),
        ),
        (encode(first) + encode(second)).skip(encode(first).len() as int) == encode(second),
        second.representable() ==> decode(
            (encode(first) + encode(second)).skip(encode(first).len() as int),
        ) == Ok::<(Resp, nat), RedisError>((second, encode(second).len())),
{
    lemma_decode_encode(first, encode(second));
    assert((encode(first) + encode(second)).skip(encode(first).len() as int) =~= encode(second));
    if second.representable() {
        law_round_trip(second);
    }
}

/// Nesting: an array of representable values, arrays among them to any
/// depth, makes the round trip.
pub proof fn law_nested_round_trip(items: Seq<Resp>)
    requires
        items.len() <= usize::MAX,
        forall|i: int| 0 <= i < items.len() ==> (#[trigger] items[i]).representable(),
    ensures
        Resp::Array(items).representable(),
        decode(encode(Resp::Array(items))) == Ok::<(Resp, nat), RedisError>(
            (Resp::Array(items), encode(Resp::Array(items)).len()),
        ),
{
    law_round_trip(Resp::Array(items));
}

} // verus!
