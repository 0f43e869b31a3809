//! The values of the wire format and their frames.

pub mod array;
pub mod boolean;
pub mod bulk_string;
pub mod deserialize;
pub mod integer;
pub mod laws;
pub mod nulls;
pub mod serialize;
pub mod simple_error;
pub mod simple_string;

use crate::constants::{COLON, DASH, DOLLAR, HASH, PLUS, STAR};
use crate::error::{ParseError, RedisError};
use crate::text::{single_line, unbroken};
use crate::value::array::{
    clone_items, decode_array, decode_array_frame, encode_array, encode_array_frame, item_views,
    same_items, Array, ArrayWithIndex,
};
use crate::value::boolean::{decode_boolean, encode_boolean, Boolean, BooleanWithIndex};
use crate::value::bulk_string::{
    decode_bulk_string, encode_bulk_string, BulkString, BulkStringWithIndex,
};
use crate::value::deserialize::{Deserialize, WithIndex};
use crate::value::integer::{decode_integer, encode_integer, Integer, IntegerWithIndex};
use crate::value::laws::lemma_encode_is_text;
use crate::value::nulls::{encode_nulls, Nulls};
use crate::value::serialize::{frame_text, Serialize};
use crate::value::simple_error::{
    decode_simple_error, encode_simple_error, ErrorType, SimpleError, SimpleErrorWithIndex,
};
use crate::value::simple_string::{
    decode_simple_string, encode_simple_string, SimpleString, SimpleStringWithIndex,
};
use vstd::prelude::*;
use vstd::std_specs::cmp::PartialEqSpecImpl;
use vstd::std_specs::convert::FromSpecImpl;
use vstd::utf8::*;

verus! {

/// The mathematical value that a [`Value`] stands for.
pub enum Resp {
    SimpleString(Seq<char>),
    SimpleError(ErrorType, Seq<char>),
    Integer(i64),
    BulkString(Seq<char>),
    Array(Seq<Resp>),
    Boolean(bool),
    Nulls,
}

/// A value of the wire format.
#[derive(Debug)]
pub enum Value {
    SimpleString(SimpleString),
    SimpleError(SimpleError),
    Integer(Integer),
    BulkString(BulkString),
    Array(Array),
    Boolean(Boolean),
    Nulls(Nulls),
}

/// A decoded value with the span it was read from.
pub struct ValueWithIndex {
    pub value: Value,
    pub index: (usize, usize),
}

/// The mathematical value that `v` stands for.
pub open spec fn value_view(v: Value) -> Resp
    decreases v,
{
    match v {
        Value::SimpleString(s) => Resp::SimpleString(s@),
        Value::SimpleError(e) => Resp::SimpleError(e.error_type, e.message@),
        Value::Integer(n) => Resp::Integer(n@),
        Value::BulkString(s) => Resp::BulkString(s@),
        Value::Array(a) => Resp::Array(item_views(a.0)),
        Value::Boolean(b) => Resp::Boolean(b@),
        Value::Nulls(_) => Resp::Nulls,
    }
}

/// The frame of a value.
pub open spec fn encode(v: Resp) -> Seq<u8>
    decreases v, 0nat,
{
    match v {
        Resp::SimpleString(s) => encode_simple_string(s),
        Resp::SimpleError(kind, message) => encode_simple_error(kind, message),
        Resp::Integer(n) => encode_integer(n),
        Resp::BulkString(s) => encode_bulk_string(s),
        Resp::Array(items) => encode_array(items),
        Resp::Boolean(b) => encode_boolean(b),
        Resp::Nulls => encode_nulls(),
    }
}

/// Reads one frame from the front of `bytes`: the value and the number of
/// bytes taken.
///
/// The lead byte tells the kind. The null reply is not among the kinds that
/// can be read: it only ever travels from the server to the client.
pub open spec fn decode(bytes: Seq<u8>) -> Result<(Resp, nat), RedisError>
    decreases bytes.len(), 1nat, 0nat,
{
    if bytes.len() == 0 {
        Err(RedisError::ValueParseError(ParseError::InvalidFormat))
    } else if bytes[0] == PLUS {
        match decode_simple_string(bytes) {
            Ok((s, taken)) => Ok((Resp::SimpleString(s), taken)),
            Err(e) => Err(e),
        }
    } else if bytes[0] == DASH {
        match decode_simple_error(bytes) {
            Ok((kind, message, taken)) => Ok((Resp::SimpleError(kind, message), taken)),
            Err(e) => Err(e),
        }
    } else if bytes[0] == COLON {
        match decode_integer(bytes) {
            Ok((n, taken)) => Ok((Resp::Integer(n), taken)),
            Err(e) => Err(e),
        }
    } else if bytes[0] == DOLLAR {
        match decode_bulk_string(bytes) {
            Ok((s, taken)) => Ok((Resp::BulkString(s), taken)),
            Err(e) => Err(e),
        }
    } else if bytes[0] == STAR {
        match decode_array(bytes) {
            Ok((items, taken)) => Ok((Resp::Array(items), taken)),
            Err(e) => Err(e),
        }
    } else if bytes[0] == HASH {
        match decode_boolean(bytes) {
            Ok((b, taken)) => Ok((Resp::Boolean(b), taken)),
            Err(e) => Err(e),
        }
    } else {
        Err(RedisError::ValueParseError(ParseError::InvalidFormat))
    }
}

impl Resp {
    /// True where the value keeps the rules of its kind, at every depth:
    /// the text of a simple string and the message of a simple error are
    /// single lines, and the length of a bulk string in bytes and the number
    /// of items of an array fit in a machine word.
    pub open spec fn wf(self) -> bool
        decreases self,
    {
        match self {
            Resp::SimpleString(s) => single_line(s),
            Resp::SimpleError(_, message) => single_line(message),
            Resp::BulkString(s) => encode_utf8(s).len() <= usize::MAX,
            Resp::Array(items) => items.len() <= usize::MAX && forall|i: int|
                0 <= i < items.len() ==> (#[trigger] items[i]).wf(),
            _ => true,
        }
    }

    /// True where the value holds no null reply, at any depth.
    pub open spec fn null_free(self) -> bool
        decreases self,
    {
        match self {
            Resp::Nulls => false,
            Resp::Array(items) => forall|i: int|
                0 <= i < items.len() ==> (#[trigger] items[i]).null_free(),
            _ => true,
        }
    }

    /// True for the values that make the round trip through their frame:
    /// those made of the six kinds that can be read, whose simple text holds
    /// no frame terminator, and whose lengths fit in a machine word.
    pub open spec fn representable(self) -> bool
        decreases self,
    {
        match self {
            Resp::SimpleString(s) => unbroken(s),
            Resp::SimpleError(_, message) => unbroken(message),
            Resp::BulkString(s) => encode_utf8(s).len() <= usize::MAX,
            Resp::Array(items) => items.len() <= usize::MAX && forall|i: int|
                0 <= i < items.len() ==> (#[trigger] items[i]).representable(),
            Resp::Nulls => false,
            _ => true,
        }
    }
}

impl View for Value {
    type V = Resp;

    open spec fn view(&self) -> Resp {
        value_view(*self)
    }
}

impl Serialize for Value {
    open spec fn wire(&self) -> Seq<u8> {
        encode(self@)
    }

    proof fn lemma_wire_is_text(&self) {
        lemma_encode_is_text(self@);
    }

    fn encode(&self) -> (out: Vec<u8>) {
        encode_value(self)
    }

    fn serialize(&self) -> (text: String) {
        proof {
            self.lemma_wire_is_text();
        }
        frame_text(encode_value(self))
    }
}

impl Deserialize for Value {
    type Value = ValueWithIndex;

    open spec fn frame_len(bytes: Seq<u8>) -> Result<nat, RedisError> {
        match decode(bytes) {
            Ok((_, len)) => Ok(len),
            Err(e) => Err(e),
        }
    }

    fn deserialize(bytes: &[u8]) -> (decoded: Result<ValueWithIndex, RedisError>)
        ensures
            match decode(bytes@) {
                Ok((v, len)) => decoded matches Ok(found) && found.value@ == v && found.index.0
                    == 0 && found.index.1 + 1 == len,
                Err(reason) => decoded matches Err(e) && e == reason,
            },
    {
        decode_value(bytes)
    }
}

/// Copies a value.
pub fn clone_value(v: &Value) -> (copy: Value)
    ensures
        copy@ == v@,
    decreases v,
{
    match v {
        Value::SimpleString(s) => Value::SimpleString(s.clone()),
        Value::SimpleError(e) => Value::SimpleError(e.clone()),
        Value::Integer(n) => Value::Integer(*n),
        Value::BulkString(s) => Value::BulkString(s.clone()),
        Value::Array(a) => Value::Array(Array(clone_items(&a.0))),
        Value::Boolean(b) => Value::Boolean(*b),
        Value::Nulls(n) => Value::Nulls(*n),
    }
}

/// Tells whether two values stand for the same mathematical value.
pub fn same_value(a: &Value, b: &Value) -> (same: bool)
    ensures
        same == (a@ == b@),
    decreases a,
{
    match a {
        Value::SimpleString(x) => match b {
            Value::SimpleString(y) => x.0 == y.0,
            _ => false,
        },
        Value::SimpleError(x) => match b {
            Value::SimpleError(y) => x.error_type == y.error_type && x.message == y.message,
            _ => false,
        },
        Value::Integer(x) => match b {
            Value::Integer(y) => x.0 == y.0,
            _ => false,
        },
        Value::BulkString(x) => match b {
            Value::BulkString(y) => x.0 == y.0,
            _ => false,
        },
        Value::Array(x) => match b {
            Value::Array(y) => same_items(&x.0, &y.0),
            _ => false,
        },
        Value::Boolean(x) => match b {
            Value::Boolean(y) => x.0 == y.0,
            _ => false,
        },
        Value::Nulls(_) => match b {
            Value::Nulls(_) => true,
            _ => false,
        },
    }
}

/// Writes the frame of a value.
pub fn encode_value(v: &Value) -> (out: Vec<u8>)
    ensures
        out@ == encode(v@),
    decreases v,
{
    match v {
        Value::SimpleString(s) => s.encode(),
        Value::SimpleError(e) => e.encode(),
        Value::Integer(n) => n.encode(),
        Value::BulkString(s) => s.encode(),
        Value::Array(a) => encode_array_frame(&a.0),
        Value::Boolean(b) => b.encode(),
        Value::Nulls(n) => n.encode(),
    }
}

/// Reads one frame from the front of `bytes`.
pub fn decode_value(bytes: &[u8]) -> (decoded: Result<ValueWithIndex, RedisError>)
    ensures
        match decode(bytes@) {
            Ok((v, len)) => decoded matches Ok(found) && found.value@ == v && found.index.0 == 0 && found.index.1 + 1 == len,
            Err(reason) => decoded matches Err(e) && e == reason,
        },
    decreases bytes@.len(), 1nat,
{
    if bytes.len() == 0 {
        return Err(RedisError::ValueParseError(ParseError::InvalidFormat));
    }
    let lead = bytes[0];
    if lead == PLUS {
        match SimpleString::deserialize(bytes) {
            Ok(found) => Ok(ValueWithIndex::from(found)),
            Err(e) => Err(e),
        }
    } else if lead == DASH {
        match SimpleError::deserialize(bytes) {
            Ok(found) => Ok(ValueWithIndex::from(found)),
            Err(e) => Err(e),
        }
    } else if lead == COLON {
        match Integer::deserialize(bytes) {
            Ok(found) => Ok(ValueWithIndex::from(found)),
            Err(e) => Err(e),
        }
    } else if lead == DOLLAR {
        match BulkString::deserialize(bytes) {
            Ok(found) => Ok(ValueWithIndex::from(found)),
            Err(e) => Err(e),
        }
    } else if lead == STAR {
        match decode_array_frame(bytes) {
            Ok(found) => Ok(ValueWithIndex::from(found)),
            Err(e) => Err(e),
        }
    } else if lead == HASH {
        match Boolean::deserialize(bytes) {
            Ok(found) => Ok(ValueWithIndex::from(found)),
            Err(e) => Err(e),
        }
    } else {
        Err(RedisError::ValueParseError(ParseError::InvalidFormat))
    }
}

impl Clone for Value {
    fn clone(&self) -> (copy: Value)
        ensures
            copy@ == self@,
    {
        clone_value(self)
    }
}

impl PartialEq for Value {
    fn eq(&self, other: &Value) -> (same: bool) {
        same_value(self, other)
    }
}

impl PartialEqSpecImpl for Value {
    open spec fn obeys_eq_spec() -> bool {
        true
    }

    open spec fn eq_spec(&self, other: &Value) -> bool {
        self@ == other@
    }
}

impl Eq for Value {

}

impl From<SimpleStringWithIndex> for ValueWithIndex {
    /// The outcome of decoding a simple string, as the outcome of decoding a value.
    fn from(item: SimpleStringWithIndex) -> (found: ValueWithIndex) {
        ValueWithIndex { value: Value::SimpleString(item.value), index: item.index }
    }
}

impl FromSpecImpl<SimpleStringWithIndex> for ValueWithIndex {
    open spec fn obeys_from_spec() -> bool {
        true
    }

    open spec fn from_spec(item: SimpleStringWithIndex) -> ValueWithIndex {
        ValueWithIndex { value: Value::SimpleString(item.value), index: item.index }
    }
}

impl From<SimpleErrorWithIndex> for ValueWithIndex {
    /// The outcome of decoding a simple error, as the outcome of decoding a value.
    fn from(item: SimpleErrorWithIndex) -> (found: ValueWithIndex) {
        ValueWithIndex { value: Value::SimpleError(item.value), index: item.index }
    }
}

impl FromSpecImpl<SimpleErrorWithIndex> for ValueWithIndex {
    open spec fn obeys_from_spec() -> bool {
        true
    }

    open spec fn from_spec(item: SimpleErrorWithIndex) -> ValueWithIndex {
        ValueWithIndex { value: Value::SimpleError(item.value), index: item.index }
    }
}

impl From<IntegerWithIndex> for ValueWithIndex {
    /// The outcome of decoding an integer, as the outcome of decoding a value.
    fn from(item: IntegerWithIndex) -> (found: ValueWithIndex) {
        ValueWithIndex { value: Value::Integer(item.value), index: item.index }
    }
}

impl FromSpecImpl<IntegerWithIndex> for ValueWithIndex {
    open spec fn obeys_from_spec() -> bool {
        true
    }

    open spec fn from_spec(item: IntegerWithIndex) -> ValueWithIndex {
        ValueWithIndex { value: Value::Integer(item.value), index: item.index }
    }
}

impl From<BulkStringWithIndex> for ValueWithIndex {
    /// The outcome of decoding a bulk string, as the outcome of decoding a value.
    fn from(item: BulkStringWithIndex) -> (found: ValueWithIndex) {
        ValueWithIndex { value: Value::BulkString(item.value), index: item.index }
    }
}

impl FromSpecImpl<BulkStringWithIndex> for ValueWithIndex {
    open spec fn obeys_from_spec() -> bool {
        true
    }

    open spec fn from_spec(item: BulkStringWithIndex) -> ValueWithIndex {
        ValueWithIndex { value: Value::BulkString(item.value), index: item.index }
    }
}

impl From<ArrayWithIndex> for ValueWithIndex {
    /// The outcome of decoding an array, as the outcome of decoding a value.
    fn from(item: ArrayWithIndex) -> (found: ValueWithIndex) {
        ValueWithIndex { value: Value::Array(item.value), index: item.index }
    }
}

impl FromSpecImpl<ArrayWithIndex> for ValueWithIndex {
    open spec fn obeys_from_spec() -> bool {
        true
    }

    open spec fn from_spec(item: ArrayWithIndex) -> ValueWithIndex {
        ValueWithIndex { value: Value::Array(item.value), index: item.index }
    }
}

impl From<BooleanWithIndex> for ValueWithIndex {
    /// The outcome of decoding a boolean, as the outcome of decoding a value.
    fn from(item: BooleanWithIndex) -> (found: ValueWithIndex) {
        ValueWithIndex { value: Value::Boolean(item.value), index: item.index }
    }
}

impl FromSpecImpl<BooleanWithIndex> for ValueWithIndex {
    open spec fn obeys_from_spec() -> bool {
        true
    }

    open spec fn from_spec(item: BooleanWithIndex) -> ValueWithIndex {
        ValueWithIndex { value: Value::Boolean(item.value), index: item.index }
    }
}

impl ValueWithIndex {
    /// First and last position of the frame in the input.
    pub fn index(self) -> (index: (usize, usize))
        ensures
            index == self.index,
    {
        self.index
    }
}

impl WithIndex for ValueWithIndex {
    open spec fn span(&self) -> (usize, usize) {
        self.index
    }

    fn get_index(self) -> (index: (usize, usize)) {
        self.index()
    }
}

} // verus!
