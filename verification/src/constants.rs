//! Constants shared by the codec and the server front end.

use vstd::prelude::*;

verus! {

/// Address the server listens on.
pub const IP: &'static str = "127.0.0.1";

/// Port the server listens on.
pub const PORT: u16 = 6379;

/// Frame terminator of the wire format, as text.
pub const CRLF: &'static str = "\r\n";

/// Carriage return, the first byte of the frame terminator.
pub const CR: u8 = 13u8;

/// Line feed, the second byte of the frame terminator.
pub const LF: u8 = 10u8;

/// The blank between the kind and the message of an error reply.
pub const SPACE: u8 = 32u8;

/// Lead byte of a simple string: `+`.
pub const PLUS: u8 = 43u8;

/// Lead byte of a simple error: `-`.
pub const DASH: u8 = 45u8;

/// Lead byte of an integer: `:`.
pub const COLON: u8 = 58u8;

/// Lead byte of a bulk string: `$`.
pub const DOLLAR: u8 = 36u8;

/// Lead byte of an array: `*`.
pub const STAR: u8 = 42u8;

/// Lead byte of a boolean: `#`.
pub const HASH: u8 = 35u8;

/// Lead byte of the null reply: `_`.
pub const UNDERSCORE: u8 = 95u8;

/// Second byte of the boolean `true`: `t`.
pub const LOWER_T: u8 = 116u8;

/// Second byte of the boolean `false`: `f`.
pub const LOWER_F: u8 = 102u8;

} // verus!
