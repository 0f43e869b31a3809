//! Text on the wire: UTF-8 validation, single-line text, and ASCII case
//! folding for the words of the protocol.

use crate::crlf_at;
use core::str::Utf8Error;
use vstd::prelude::*;
use vstd::string::*;
use vstd::utf8::*;

verus! {

/// `core::str::Utf8Error`, the error that `core::str::from_utf8` reports.
/// Nothing is read from it: a value of it only says that some bytes were not
/// UTF-8.
#[verifier::external_type_specification]
#[verifier::external_body]
pub struct ExUtf8Error(Utf8Error);

/// `core::str::from_utf8` accepts exactly the well-formed UTF-8 byte
/// sequences, and the string slice it returns is made of the bytes it was
/// given.
pub assume_specification[ core::str::from_utf8 ](v: &[u8]) -> (r: Result<&str, Utf8Error>)
    ensures
        r is Ok <==> valid_utf8(v@),
        r matches Ok(s) ==> s.spec_bytes() == v@,
;

/// True where `s` holds neither a carriage return nor a line feed.
pub open spec fn single_line(s: Seq<char>) -> bool {
    forall|i: int| 0 <= i < s.len() ==> #[trigger] s[i] != '\r' && s[i] != '\n'
}

/// True where `s` holds no carriage return with a line feed right behind
/// it: the text holds no frame terminator.
pub open spec fn unbroken(s: Seq<char>) -> bool {
    forall|i: int| 0 <= i && i + 1 < s.len() ==> !(#[trigger] s[i] == '\r' && s[i + 1] == '\n')
}

/// True where every byte of `bytes` is an ASCII code.
pub open spec fn all_ascii(bytes: Seq<u8>) -> bool {
    forall|i: int| 0 <= i < bytes.len() ==> #[trigger] bytes[i] < 128
}

/// The code of `c`, with the ASCII capital letters moved onto the small
/// ones.
pub open spec fn fold_case(c: char) -> u32 {
    let code = c as u32;
    if 65 <= code <= 90 {
        (code + 32) as u32
    } else {
        code
    }
}

/// True where `a` and `b` are the same up to the case of ASCII letters.
pub open spec fn same_ignoring_case(a: Seq<char>, b: Seq<char>) -> bool {
    &&& a.len() == b.len()
    &&& forall|i: int| 0 <= i < a.len() ==> fold_case(#[trigger] a[i]) == fold_case(b[i])
}

/// The code of a character is a scalar value, and casts keep it.
pub proof fn lemma_char_code(c: char)
    ensures
        '\0' <= c <= '\u{10ffff}',
        0 <= c as int <= 0x10ffff,
        c as u32 == c as int,
        c <= '\u{7f}' <==> c as u32 <= 127,
        c == '\r' <==> c as u32 == 13,
        c == '\n' <==> c as u32 == 10,
{
}

/// A byte, with the ASCII capital letters moved onto the small ones.
fn fold_byte(b: u8) -> (folded: u8)
    ensures
        folded == if 65 <= b <= 90 {
            (b + 32) as u8
        } else {
            b
        },
{
    if 65 <= b && b <= 90 {
        b + 32
    } else {
        b
    }
}

/// Tells whether `s` is the ASCII word `word`, up to the case of letters.
pub(crate) fn matches_word(s: &str, word: &str) -> (same: bool)
    requires
        is_ascii(word),
    ensures
        same == same_ignoring_case(s@, word@),
{
    broadcast use is_ascii_spec_bytes;

    if !s.is_ascii() {
        proof {
            if s@.len() == word@.len() {
                let i = choose|i: int|
                    0 <= i < s@.len() && !('\0' <= #[trigger] s@[i] <= '\u{7f}');
                lemma_char_code(s@[i]);
                lemma_char_code(word@[i]);
                assert(fold_case(s@[i]) != fold_case(word@[i]));
            }
        }
        return false;
    }
    let sb = s.as_bytes();
    let wb = word.as_bytes();
    let len = sb.len();
    if len != wb.len() {
        return false;
    }
    let mut i: usize = 0;
    while i < len
        invariant
            is_ascii(s),
            is_ascii(word),
            sb@ == s.spec_bytes(),
            wb@ == word.spec_bytes(),
            len == s@.len(),
            len == word@.len(),
            0 <= i <= len,
            forall|j: int| 0 <= j < i ==> fold_case(#[trigger] s@[j]) == fold_case(word@[j]),
        decreases len - i,
    {
        let x = fold_byte(sb[i]);
        let y = fold_byte(wb[i]);
        proof {
            assert(sb@[i as int] == s@[i as int] as u8);
            assert(wb@[i as int] == word@[i as int] as u8);
            assert(s@[i as int] as u32 <= 127);
            assert(word@[i as int] as u32 <= 127);
        }
        if x != y {
            assert(fold_case(s@[i as int]) != fold_case(word@[i as int]));
            return false;
        }
        i = i + 1;
    }
    true
}

/// Reads `bytes` as UTF-8 text, where they are well formed.
pub fn text_of(bytes: &[u8]) -> (text: Option<String>)
    ensures
        text is Some <==> valid_utf8(bytes@),
        text matches Some(s) ==> s@ == decode_utf8(bytes@),
{
    broadcast use encode_utf8_decode_utf8;

    match core::str::from_utf8(bytes) {
        Ok(s) => {
            Some(s.to_owned())
        },
        Err(_) => None,
    }
}

/// Facts about the bytes that encode one scalar value: a value below 128 is
/// its own single byte, and every byte of a longer encoding is 128 or more.
proof fn lemma_scalar_bytes(c: u32)
    by (bit_vector)
    ensures
        c <= 0x7F ==> ((c & 0x7F) as u8) as u32 == c,
        (0xC0u8 | ((c >> 6) & 0x1F) as u8) >= 0x80u8,
        (0xE0u8 | ((c >> 12) & 0x0F) as u8) >= 0x80u8,
        (0xF0u8 | ((c >> 18) & 0x7) as u8) >= 0x80u8,
        (0x80u8 | (c & 0x3F) as u8) >= 0x80u8,
        (0x80u8 | ((c >> 6) & 0x3F) as u8) >= 0x80u8,
        (0x80u8 | ((c >> 12) & 0x3F) as u8) >= 0x80u8,
{
}

/// The first byte of the UTF-8 encoding of a text is an ASCII code only
/// where the first character is that code.
proof fn lemma_first_byte(s: Seq<char>)
    requires
        s.len() > 0,
    ensures
        encode_utf8(s).len() > 0,
        encode_utf8(s)[0] < 128 ==> encode_utf8(s)[0] == s[0] as u32,
        encode_utf8(s)[0] < 128 ==> encode_utf8(s) == seq![encode_utf8(s)[0]] + encode_utf8(
            s.drop_first(),
        ),
{
    let c = s[0] as u32;
    lemma_scalar_bytes(c);
    lemma_char_code(s[0]);
    assert(encode_utf8(s)[0] == encode_scalar(c)[0]);
}

/// The UTF-8 encoding of a text that holds no frame terminator holds none
/// either.
pub proof fn lemma_unbroken_bytes(s: Seq<char>)
    requires
        unbroken(s),
    ensures
        forall|i: int| !crlf_at(encode_utf8(s), i),
    decreases s.len(),
{
    let bytes = encode_utf8(s);
    if s.len() > 0 {
        let rest = s.drop_first();
        let head = encode_scalar(s[0] as u32);
        let tail = encode_utf8(rest);
        assert(unbroken(rest)) by {
            assert forall|i: int| 0 <= i && i + 1 < rest.len() implies !(#[trigger] rest[i] == '\r'
                && rest[i + 1] == '\n') by {
                assert(rest[i] == s[i + 1]);
                assert(rest[i + 1] == s[i + 2]);
            }
        }
        lemma_unbroken_bytes(rest);
        lemma_scalar_bytes(s[0] as u32);
        lemma_char_code(s[0]);
        assert forall|i: int| !crlf_at(bytes, i) by {
            if crlf_at(bytes, i) {
                if i >= head.len() {
                    assert(bytes[i] == tail[i - head.len()]);
                    assert(bytes[i + 1] == tail[i + 1 - head.len()]);
                    assert(crlf_at(tail, i - head.len()));
                } else if i + 1 < head.len() {
                    assert(bytes[i] == head[i]);
                } else {
                    assert(bytes[i] == head[i]);
                    assert(bytes[i + 1] == tail[0]);
                    lemma_first_byte(rest);
                    lemma_char_code(rest[0]);
                    assert(s[0] == '\r' && s[1] == '\n');
                }
            }
        }
    }
}

/// A run of ASCII codes is well-formed UTF-8.
pub proof fn lemma_ascii_is_utf8(bytes: Seq<u8>)
    requires
        all_ascii(bytes),
    ensures
        valid_utf8(bytes),
{
    assert(bytes.subrange(0, 0) =~= Seq::<u8>::empty());
    assert(partial_valid_utf8(bytes, 0));
    partial_valid_utf8_extend_ascii_block(bytes, 0, bytes.len() as int);
    assert(bytes.subrange(0, bytes.len() as int) =~= bytes);
}

} // verus!
