//! The array kind: `*`, the number of items, the frame terminator, and the
//! frames of the items one after another.

use crate::constants::{CR, LF, STAR};
use crate::decimal::{decimal, decimal_digits};
use crate::error::{ParseError, RedisError};
use crate::value::deserialize::{decode_header, read_header, Deserialize, WithIndex};
use crate::value::laws::{lemma_decode_takes, lemma_encode_is_text};
use crate::value::serialize::{frame_text, Serialize};
use crate::value::{
    clone_value, decode, decode_value, encode, encode_value, same_value, value_view, Resp, Value,
};
use crate::{has_crlf, lemma_first_crlf_exists};
use vstd::prelude::*;
use vstd::slice::slice_subrange;
use vstd::std_specs::cmp::PartialEqSpecImpl;

verus! {

/// A sequence of values, which may be arrays themselves.
#[derive(Debug)]
pub struct Array(pub Vec<Value>);

/// A decoded array with the span it was read from.
pub struct ArrayWithIndex {
    pub value: Array,
    pub index: (usize, usize),
}

/// The mathematical values that the items stand for, in order.
pub open spec fn item_views(items: Vec<Value>) -> Seq<Resp>
    decreases items,
{
    Seq::new(
        items.len() as nat,
        |i: int|
            if 0 <= i < items.len() {
                value_view(items[i])
            } else {
                Resp::Nulls
            },
    )
}

/// The frames of the items from position `from` on, one after another.
pub open spec fn encode_items(items: Seq<Resp>, from: nat) -> Seq<u8>
    decreases items, items.len() - from,
{
    if from >= items.len() {
        Seq::<u8>::empty()
    } else {
        encode(items[from as int]) + encode_items(items, from + 1)
    }
}

/// The frame of an array.
pub open spec fn encode_array(items: Seq<Resp>) -> Seq<u8>
    decreases items, items.len() + 1,
{
    seq![STAR] + decimal(items.len()) + seq![CR, LF] + encode_items(items, 0)
}

/// Reads `count` frames from the front of `bytes`, one after another: the
/// values and the number of bytes taken.
///
/// A frame never takes more bytes than there are, nor none at all (see
/// `lemma_decode_takes`); the test on the number taken makes that plain
/// to the termination check.
pub open spec fn decode_items(bytes: Seq<u8>, count: nat) -> Result<(Seq<Resp>, nat), RedisError>
    decreases bytes.len(), 2nat, count,
{
    if count == 0 {
        Ok((Seq::<Resp>::empty(), 0nat))
    } else {
        match decode(bytes) {
            Err(e) => Err(e),
            Ok((first, taken)) => {
                if 0 < taken <= bytes.len() {
                    match decode_items(bytes.skip(taken as int), (count - 1) as nat) {
                        Err(e) => Err(e),
                        Ok((others, more)) => Ok((seq![first] + others, taken + more)),
                    }
                } else {
                    Err(RedisError::IndexOutOfBoundError)
                }
            },
        }
    }
}

/// Reads an array frame from the front of `bytes`: the items and the number
/// of bytes taken.
pub open spec fn decode_array(bytes: Seq<u8>) -> Result<(Seq<Resp>, nat), RedisError>
    decreases bytes.len(), 0nat, 0nat,
    via decode_array_decreases
{
    if bytes.len() == 0 || bytes[0] != STAR {
        Err(RedisError::CommandParseError(ParseError::InvalidFormat))
    } else {
        match decode_header(bytes) {
            Err(e) => Err(e),
            Ok((count, start)) => match decode_items(bytes.skip(start as int), count) {
                Err(e) => Err(e),
                Ok((items, taken)) => Ok((items, start + taken)),
            },
        }
    }
}

#[via_fn]
proof fn decode_array_decreases(bytes: Seq<u8>) {
    if bytes.len() > 0 && bytes[0] == STAR {
        lemma_header_end(bytes);
    }
}

/// A header ends inside the input, behind at least three bytes.
pub proof fn lemma_header_end(bytes: Seq<u8>)
    requires
        bytes.len() > 0,
        bytes[0] != CR,
    ensures
        decode_header(bytes) matches Ok((_, start)) ==> 3 <= start <= bytes.len(),
{
    if has_crlf(bytes, 0) {
        lemma_first_crlf_exists(bytes, 0);
    }
}

impl View for Array {
    type V = Seq<Resp>;

    open spec fn view(&self) -> Seq<Resp> {
        item_views(self.0)
    }
}

/// Copies the items of an array.
pub fn clone_items(items: &Vec<Value>) -> (copy: Vec<Value>)
    ensures
        item_views(copy) == item_views(*items),
    decreases items,
{
    let mut copy: Vec<Value> = Vec::new();
    let mut i: usize = 0;
    while i < items.len()
        invariant
            0 <= i <= items.len(),
            copy.len() == i,
            forall|j: int| 0 <= j < i ==> copy[j]@ == items[j]@,
        decreases items.len() - i,
    {
        copy.push(clone_value(&items[i]));
        i = i + 1;
    }
    assert(item_views(copy) =~= item_views(*items));
    copy
}

/// Tells whether two runs of items stand for the same values.
pub fn same_items(a: &Vec<Value>, b: &Vec<Value>) -> (same: bool)
    ensures
        same == (item_views(*a) == item_views(*b)),
    decreases a,
{
    if a.len() != b.len() {
        assert(item_views(*a).len() != item_views(*b).len());
        return false;
    }
    let mut i: usize = 0;
    while i < a.len()
        invariant
            a.len() == b.len(),
            0 <= i <= a.len(),
            forall|j: int| 0 <= j < i ==> a[j]@ == b[j]@,
        decreases a.len() - i,
    {
        if !same_value(&a[i], &b[i]) {
            assert(item_views(*a)[i as int] != item_views(*b)[i as int]);
            return false;
        }
        i = i + 1;
    }
    assert(item_views(*a) =~= item_views(*b));
    true
}

/// Writes the frame of an array with the given items.
pub fn encode_array_frame(items: &Vec<Value>) -> (out: Vec<u8>)
    ensures
        out@ == encode_array(item_views(*items)),
    decreases items,
{
    let ghost views = item_views(*items);
    let mut out: Vec<u8> = Vec::new();
    out.push(STAR);
    let mut numeral = decimal_digits(items.len() as u128);
    out.append(&mut numeral);
    out.push(CR);
    out.push(LF);
    let ghost head = out@;
    assert(head =~= seq![STAR] + decimal(views.len()) + seq![CR, LF]);
    let mut i: usize = 0;
    while i < items.len()
        invariant
            0 <= i <= items.len(),
            views == item_views(*items),
            out@ + encode_items(views, i as nat) == head + encode_items(views, 0),
        decreases items.len() - i,
    {
        let mut frame = encode_value(&items[i]);
        proof {
            assert(frame@ == encode(views[i as int]));
            assert((out@ + frame@) + encode_items(views, (i + 1) as nat) =~= out@ + encode_items(
                views,
                i as nat,
            ));
        }
        out.append(&mut frame);
        i = i + 1;
    }
    assert(out@ + encode_items(views, i as nat) =~= out@);
    out
}

/// Reads an array frame from the front of `bytes`.
pub fn decode_array_frame(bytes: &[u8]) -> (decoded: Result<ArrayWithIndex, RedisError>)
    ensures
        match decode_array(bytes@) {
            Ok((items, len)) => decoded matches Ok(found) && found.value@ == items && found.index.0 == 0 && found.index.1 + 1 == len,
            Err(reason) => decoded matches Err(e) && e == reason,
        },
    decreases bytes@.len(), 0nat,
{
    let len = bytes.len();
    if len == 0 || bytes[0] != STAR {
        return Err(RedisError::CommandParseError(ParseError::InvalidFormat));
    }
    let (count, start) = match read_header(bytes) {
        Ok(header) => header,
        Err(e) => {
            return Err(e);
        },
    };
    let ghost all = bytes@.skip(start as int);
    let mut items: Vec<Value> = Vec::new();
    let mut next: usize = start;
    let mut i: usize = 0;
    while i < count
        invariant
            len == bytes@.len(),
            len > 0 && bytes@[0] == STAR,
            decode_header(bytes@) == Ok::<(nat, nat), RedisError>((count as nat, start as nat)),
            all == bytes@.skip(start as int),
            3 <= start <= next <= len,
            0 <= i <= count,
            items.len() == i,
            match decode_items(bytes@.skip(next as int), (count - i) as nat) {
                Err(e) => decode_items(all, count as nat) == Err::<(Seq<Resp>, nat), RedisError>(e),
                Ok((others, more)) => decode_items(all, count as nat) == Ok::<
                    (Seq<Resp>, nat),
                    RedisError,
                >((item_views(items) + others, (next - start + more) as nat)),
            },
        decreases count - i,
    {
        let ghost rest = bytes@.skip(next as int);
        let ghost before = item_views(items);
        proof {
            lemma_decode_takes(rest);
            assert(bytes@.subrange(next as int, len as int) =~= rest);
        }
        let found = match decode_value(slice_subrange(bytes, next, len)) {
            Ok(found) => found,
            Err(e) => {
                return Err(e);
            },
        };
        let taken = found.index.1 + 1;
        proof {
            assert(rest.skip(taken as int) =~= bytes@.skip(next + taken));
            match decode_items(rest.skip(taken as int), (count - i - 1) as nat) {
                Err(_) => {},
                Ok((others, more)) => {
                    assert(item_views(items).push(found.value@) + others =~= before + (seq![
                        found.value@,
                    ] + others));
                },
            }
        }
        items.push(found.value);
        proof {
            assert(item_views(items) =~= before.push(found.value@));
        }
        next = next + taken;
        i = i + 1;
    }
    proof {
        assert(item_views(items) + Seq::<Resp>::empty() =~= item_views(items));
    }
    Ok(ArrayWithIndex { value: Array(items), index: (0, next - 1) })
}

impl Clone for Array {
    fn clone(&self) -> (copy: Array)
        ensures
            copy@ == self@,
    {
        Array(clone_items(&self.0))
    }
}

impl PartialEq for Array {
    fn eq(&self, other: &Array) -> (same: bool) {
        same_items(&self.0, &other.0)
    }
}

impl PartialEqSpecImpl for Array {
    open spec fn obeys_eq_spec() -> bool {
        true
    }

    open spec fn eq_spec(&self, other: &Array) -> bool {
        self@ == other@
    }
}

impl Eq for Array {

}

impl ArrayWithIndex {
    /// First and last position of the frame in the input.
    pub fn index(self) -> (index: (usize, usize))
        ensures
            index == self.index,
    {
        self.index
    }
}

impl WithIndex for ArrayWithIndex {
    open spec fn span(&self) -> (usize, usize) {
        self.index
    }

    fn get_index(self) -> (index: (usize, usize)) {
        self.index()
    }
}

impl Serialize for Array {
    open spec fn wire(&self) -> Seq<u8> {
        encode_array(self@)
    }

    proof fn lemma_wire_is_text(&self) {
        lemma_encode_is_text(Resp::Array(self@));
    }

    fn encode(&self) -> (out: Vec<u8>) {
        encode_array_frame(&self.0)
    }

    fn serialize(&self) -> (text: String) {
        proof {
            self.lemma_wire_is_text();
        }
        frame_text(encode_array_frame(&self.0))
    }
}

impl Deserialize for Array {
    type Value = ArrayWithIndex;

    open spec fn frame_len(bytes: Seq<u8>) -> Result<nat, RedisError> {
        match decode_array(bytes) {
            Ok((_, len)) => Ok(len),
            Err(e) => Err(e),
        }
    }

    fn deserialize(bytes: &[u8]) -> (decoded: Result<ArrayWithIndex, RedisError>)
        ensures
            match decode_array(bytes@) {
                Ok((items, len)) => decoded matches Ok(found) && found.value@ == items
                    && found.index.0 == 0 && found.index.1 + 1 == len,
                Err(reason) => decoded matches Err(e) && e == reason,
            },
    {
        proof {
            lemma_decode_takes(bytes@);
        }
        decode_array_frame(bytes)
    }
}

} // verus!
