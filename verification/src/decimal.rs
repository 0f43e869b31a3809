//! Decimal numerals as they appear on the wire: runs of ASCII digits, with an
//! optional leading minus sign for signed numbers.

use vstd::prelude::*;
use vstd::slice::slice_subrange;

verus! {

/// ASCII code of the digit zero.
pub const ZERO: u8 = 48u8;

/// ASCII code of the minus sign.
pub const MINUS: u8 = 45u8;

/// True for the ASCII codes of `0` to `9`.
pub open spec fn is_digit(b: u8) -> bool {
    48 <= b <= 57
}

/// True where every byte of `s` is a decimal digit.
pub open spec fn all_digits(s: Seq<u8>) -> bool {
    forall|i: int| 0 <= i < s.len() ==> is_digit(#[trigger] s[i])
}

/// The number that a run of digits writes, most significant digit first.
pub open spec fn digits_value(s: Seq<u8>) -> nat
    decreases s.len(),
{
    if s.len() == 0 {
        0
    } else {
        digits_value(s.drop_last()) * 10 + (s.last() - 48) as nat
    }
}

/// Reads `s` as an unsigned decimal numeral no greater than `max`.
///
/// A numeral is one or more digits and nothing else: no sign, no blanks.
/// Leading zeros are allowed.
pub open spec fn parse_unsigned(s: Seq<u8>, max: nat) -> Option<nat> {
    if s.len() > 0 && all_digits(s) && digits_value(s) <= max {
        Some(digits_value(s))
    } else {
        None
    }
}

/// Reads `s` as a signed decimal numeral that fits in 64 bits: an unsigned
/// numeral, or a minus sign followed by one.
pub open spec fn parse_signed(s: Seq<u8>) -> Option<i64> {
    if s.len() > 0 && s[0] == MINUS {
        match parse_unsigned(s.drop_first(), 0x8000_0000_0000_0000) {
            Some(m) => Some((-m) as i64),
            None => None,
        }
    } else {
        match parse_unsigned(s, 0x7fff_ffff_ffff_ffff) {
            Some(m) => Some(m as i64),
            None => None,
        }
    }
}

/// The shortest decimal numeral for `n`.
pub open spec fn decimal(n: nat) -> Seq<u8>
    decreases n,
{
    if n < 10 {
        seq![(48 + n) as u8]
    } else {
        decimal(n / 10).push((48 + n % 10) as u8)
    }
}

/// The decimal numeral for `n`, with a minus sign in front where `n` is
/// negative.
pub open spec fn signed_decimal(n: int) -> Seq<u8> {
    if n < 0 {
        seq![MINUS] + decimal((-n) as nat)
    } else {
        decimal(n as nat)
    }
}

/// A longer prefix of a run of digits never writes a smaller number.
pub proof fn lemma_digits_value_monotonic(s: Seq<u8>, i: int, j: int)
    requires
        all_digits(s),
        0 <= i <= j <= s.len(),
    ensures
        digits_value(s.take(i)) <= digits_value(s.take(j)),
    decreases j - i,
{
    if i < j {
        lemma_digits_value_monotonic(s, i, j - 1);
        assert(s.take(j).drop_last() =~= s.take(j - 1));
        assert(is_digit(s[j - 1]));
    }
}

/// What `decimal` writes is a numeral, and it reads back as the same number.
pub proof fn lemma_decimal_reads_back(n: nat)
    ensures
        decimal(n).len() >= 1,
        all_digits(decimal(n)),
        digits_value(decimal(n)) == n,
    decreases n,
{
    if n < 10 {
        let s = decimal(n);
        assert(s.drop_last() =~= Seq::<u8>::empty());
        assert(digits_value(s.drop_last()) == 0);
    } else {
        lemma_decimal_reads_back(n / 10);
        let s = decimal(n);
        assert(s.drop_last() =~= decimal(n / 10));
    }
}

/// A signed numeral written by `signed_decimal` parses to the number
/// written.
pub proof fn lemma_parse_signed_decimal(n: i64)
    ensures
        parse_signed(signed_decimal(n as int)) == Some(n),
{
    if n < 0 {
        let m = (-n) as nat;
        lemma_decimal_reads_back(m);
        assert(signed_decimal(n as int).drop_first() =~= decimal(m));
    } else {
        lemma_decimal_reads_back(n as nat);
        assert(is_digit(decimal(n as nat)[0]));
    }
}

/// A signed numeral is made of digits and at most a minus sign.
pub proof fn lemma_signed_decimal_bytes(n: int)
    ensures
        signed_decimal(n).len() >= 1,
        forall|i: int|
            0 <= i < signed_decimal(n).len() ==> is_digit(#[trigger] signed_decimal(n)[i])
                || signed_decimal(n)[i] == MINUS,
{
    if n < 0 {
        lemma_decimal_reads_back((-n) as nat);
    } else {
        lemma_decimal_reads_back(n as nat);
    }
}

/// Parses an unsigned decimal numeral no greater than `max`.
pub fn parse_decimal(bytes: &[u8], max: u128) -> (parsed: Option<u128>)
    ensures
        parsed == match parse_unsigned(bytes@, max as nat) {
            Some(n) => Some(n as u128),
            None => None::<u128>,
        },
{
    let len = bytes.len();
    if len == 0 {
        return None;
    }
    let mut acc: u128 = 0;
    let mut i: usize = 0;
    while i < len
        invariant
            len == bytes@.len(),
            0 <= i <= len,
            all_digits(bytes@.take(i as int)),
            acc == digits_value(bytes@.take(i as int)),
            acc <= max,
        decreases len - i,
    {
        let b = bytes[i];
        if b < 48 || b > 57 {
            return None;
        }
        let d: u128 = (b - 48) as u128;
        proof {
            assert(bytes@.take(i + 1).drop_last() =~= bytes@.take(i as int));
            if all_digits(bytes@) {
                lemma_digits_value_monotonic(bytes@, i + 1, len as int);
                assert(bytes@.take(len as int) =~= bytes@);
            }
        }
        if max < d || acc > (max - d) / 10 {
            return None;
        }
        acc = acc * 10 + d;
        i = i + 1;
    }
    proof {
        assert(bytes@.take(len as int) =~= bytes@);
    }
    Some(acc)
}

/// Parses a signed decimal numeral that fits in 64 bits.
pub fn parse_i64(bytes: &[u8]) -> (parsed: Option<i64>)
    ensures
        parsed == parse_signed(bytes@),
{
    let len = bytes.len();
    if len > 0 && bytes[0] == MINUS {
        match parse_decimal(slice_subrange(bytes, 1, len), 0x8000_0000_0000_0000u128) {
            Some(m) => {
                let wide: i128 = -(m as i128);
                Some(wide as i64)
            },
            None => None,
        }
    } else {
        match parse_decimal(bytes, 0x7fff_ffff_ffff_ffffu128) {
            Some(m) => Some(m as i64),
            None => None,
        }
    }
}

/// Writes the shortest decimal numeral for `n`.
pub fn decimal_digits(n: u128) -> (out: Vec<u8>)
    ensures
        out@ == decimal(n as nat),
    decreases n,
{
    if n < 10 {
        let mut out: Vec<u8> = Vec::new();
        out.push(ZERO + n as u8);
        assert(out@ =~= decimal(n as nat));
        out
    } else {
        let mut out = decimal_digits(n / 10);
        out.push(ZERO + (n % 10) as u8);
        out
    }
}

/// Writes the decimal numeral for `n`, with a minus sign in front where `n`
/// is negative.
pub fn signed_decimal_digits(n: i64) -> (out: Vec<u8>)
    ensures
        out@ == signed_decimal(n as int),
{
    if n < 0 {
        let magnitude: u128 = (-(n as i128)) as u128;
        let mut out: Vec<u8> = Vec::new();
        out.push(MINUS);
        let mut digits = decimal_digits(magnitude);
        out.append(&mut digits);
        assert(out@ =~= signed_decimal(n as int));
        out
    } else {
        decimal_digits(n as u128)
    }
}

} // verus!
