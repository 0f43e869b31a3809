//! The encoding interface shared by every kind of value.

use crate::text::text_of;
use vstd::pervasive::unreached;
use vstd::prelude::*;
use vstd::utf8::*;

verus! {

/// Encoding of a value as one frame of the wire format.
pub trait Serialize {
    /// The frame of this value.
    spec fn wire(&self) -> Seq<u8>;

    /// Every frame is well-formed UTF-8, so it can be handed on as text.
    proof fn lemma_wire_is_text(&self)
        ensures
            valid_utf8(self.wire()),
    ;

    /// Writes the frame of this value.
    fn encode(&self) -> (out: Vec<u8>)
        ensures
            out@ == self.wire(),
    ;

    /// Writes the frame of this value as text: the text whose UTF-8 bytes
    /// are the frame.
    fn serialize(&self) -> (text: String)
        ensures
            encode_utf8(text@) == self.wire(),
    ;
}

/// Turns a frame into the text that it spells.
pub(crate) fn frame_text(frame: Vec<u8>) -> (text: String)
    requires
        valid_utf8(frame@),
    ensures
        encode_utf8(text@) == frame@,
{
    broadcast use decode_utf8_encode_utf8;

    match text_of(frame.as_slice()) {
        Some(text) => text,
        None => unreached(),
    }
}

} // verus!
