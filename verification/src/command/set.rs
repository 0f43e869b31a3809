//! `SET key value [NX|XX] [EX s | PX ms | EXAT s | PXAT ms]`.

use crate::command::{arg_views, error_reply, Execute};
use crate::decimal::{parse_decimal, parse_unsigned};
use crate::storage::{contains_key, insert, store_insert, Database, Expiry, Store, Timestamp};
use crate::text::{matches_word, same_ignoring_case};
use crate::value::bulk_string::BulkString;
use crate::value::nulls::Nulls;
use crate::value::simple_error::ErrorType;
use crate::value::simple_string::SimpleString;
use crate::value::{Resp, Value};
use vstd::prelude::*;
use vstd::slice::slice_subrange;
use vstd::string::*;
use vstd::utf8::*;

verus! {

/// The handler of `SET`.
pub struct SetCommand;

/// When a `SET` may write.
#[derive(Debug, Clone, Copy, PartialEq, Eq, Structural)]
pub enum SetCondition {
    /// Only where the key is not in the store.
    NX,
    /// Only where the key is in the store.
    XX,
}

/// Why the options of a `SET` could not be read.
#[derive(Debug, Clone, Copy, PartialEq, Eq, Structural)]
pub enum SetFault {
    /// The options do not follow the grammar.
    Syntax,
    /// The amount behind an expiry option is not a number, or too large.
    NotInteger,
}

/// The options of a `SET`, as far as they have been read.
#[derive(Debug, Clone, Copy, PartialEq, Eq, Structural)]
pub struct SetOptions {
    pub condition: Option<SetCondition>,
    pub expiry: Option<Expiry>,
}

/// Largest number of seconds that can be held as milliseconds in 64 bits.
pub const MAX_SECONDS: u64 = 18_446_744_073_709_551u64;

/// Largest number of epoch seconds that can be held as milliseconds in 128
/// bits.
pub const MAX_EPOCH_SECONDS: u128 = 340_282_366_920_938_463_463_374_607_431_768_211u128;

/// The number that the text `token` writes, where it is an unsigned decimal
/// numeral no greater than `max`.
pub open spec fn number_of(token: Seq<char>, max: nat) -> Option<nat> {
    parse_unsigned(encode_utf8(token), max)
}

/// True where `word` is one of the four expiry options.
pub open spec fn is_expiry_word(word: Seq<char>) -> bool {
    same_ignoring_case(word, "ex"@) || same_ignoring_case(word, "px"@) || same_ignoring_case(
        word,
        "exat"@,
    ) || same_ignoring_case(word, "pxat"@)
}

/// The expiry that the option `word` with the amount `amount` asks for.
///
/// Seconds are turned into milliseconds; an amount whose milliseconds do
/// not fit the width of its option is taken as out of range.
pub open spec fn expiry_of(word: Seq<char>, amount: Seq<char>) -> Option<Expiry> {
    if same_ignoring_case(word, "ex"@) {
        match number_of(amount, MAX_SECONDS as nat) {
            Some(s) => Some(Expiry::DURATION((s * 1000) as u64)),
            None => None,
        }
    } else if same_ignoring_case(word, "px"@) {
        match number_of(amount, u64::MAX as nat) {
            Some(ms) => Some(Expiry::DURATION(ms as u64)),
            None => None,
        }
    } else if same_ignoring_case(word, "exat"@) {
        match number_of(amount, MAX_EPOCH_SECONDS as nat) {
            Some(s) => Some(Expiry::EPOCH((s * 1000) as u128)),
            None => None,
        }
    } else {
        match number_of(amount, u128::MAX as nat) {
            Some(ms) => Some(Expiry::EPOCH(ms as u128)),
            None => None,
        }
    }
}

/// Reads the options of a `SET` from left to right, starting from what has
/// been read so far.
///
/// A condition may be given again, but not together with the other one. An
/// expiry option may be given once, and an amount must follow it.
pub open spec fn read_options(tokens: Seq<Seq<char>>, so_far: SetOptions) -> Result<
    SetOptions,
    SetFault,
>
    decreases tokens.len(),
{
    if tokens.len() == 0 {
        Ok(so_far)
    } else {
        let word = tokens[0];
        if same_ignoring_case(word, "nx"@) {
            if so_far.condition == Some(SetCondition::XX) {
                Err(SetFault::Syntax)
            } else {
                read_options(
                    tokens.drop_first(),
                    SetOptions { condition: Some(SetCondition::NX), expiry: so_far.expiry },
                )
            }
        } else if same_ignoring_case(word, "xx"@) {
            if so_far.condition == Some(SetCondition::NX) {
                Err(SetFault::Syntax)
            } else {
                read_options(
                    tokens.drop_first(),
                    SetOptions { condition: Some(SetCondition::XX), expiry: so_far.expiry },
                )
            }
        } else if is_expiry_word(word) {
            if so_far.expiry is Some || tokens.len() < 2 {
                Err(SetFault::Syntax)
            } else {
                match expiry_of(word, tokens[1]) {
                    None => Err(SetFault::NotInteger),
                    Some(expiry) => read_options(
                        tokens.skip(2),
                        SetOptions { condition: so_far.condition, expiry: Some(expiry) },
                    ),
                }
            }
        } else {
            Err(SetFault::Syntax)
        }
    }
}

/// The reply to `SET` and the store after it.
///
/// The first two arguments are the key and the value; the rest are options.
/// Whether the key is in the store is asked without regard to expiry. Where
/// the condition lets the write pass, the entry is written with the time
/// `now` and the reply is `Ok`; where it does not, the store is left as it
/// is and the reply is the null reply.
pub open spec fn set_outcome(args: Seq<Seq<char>>, store: Store, now: Timestamp) -> (
    Resp,
    Store,
) {
    if args.len() < 2 {
        (
            Resp::SimpleError(ErrorType::ERR, "wrong number of arguments for 'set' command"@),
            store,
        )
    } else {
        match read_options(args.skip(2), SetOptions { condition: None, expiry: None }) {
            Err(SetFault::Syntax) => (Resp::SimpleError(ErrorType::ERR, "syntax error"@), store),
            Err(SetFault::NotInteger) => (
                Resp::SimpleError(ErrorType::ERR, "value is not an integer or out of range"@),
                store,
            ),
            Ok(options) => {
                let present = store.contains_key(args[0]);
                let held_back = match options.condition {
                    Some(SetCondition::NX) => present,
                    Some(SetCondition::XX) => !present,
                    None => false,
                };
                if held_back {
                    (Resp::Nulls, store)
                } else {
                    let expiry = match options.expiry {
                        Some(expiry) => expiry,
                        None => Expiry::INFINITE,
                    };
                    (Resp::SimpleString("Ok"@), store_insert(store, args[0], args[1], expiry, now))
                }
            },
        }
    }
}

/// Reads the amount behind the expiry option `word`.
fn read_expiry(word: &str, amount: &str) -> (expiry: Option<Expiry>)
    requires
        is_expiry_word(word@),
    ensures
        expiry == expiry_of(word@, amount@),
{
    proof {
        reveal_strlit("ex");
        reveal_strlit("px");
        reveal_strlit("exat");
        reveal_strlit("pxat");
    }
    let digits = amount.as_bytes();
    if matches_word(word, "ex") {
        match parse_decimal(digits, MAX_SECONDS as u128) {
            Some(s) => Some(Expiry::DURATION((s as u64) * 1000)),
            None => None,
        }
    } else if matches_word(word, "px") {
        match parse_decimal(digits, u64::MAX as u128) {
            Some(ms) => Some(Expiry::DURATION(ms as u64)),
            None => None,
        }
    } else if matches_word(word, "exat") {
        match parse_decimal(digits, MAX_EPOCH_SECONDS) {
            Some(s) => Some(Expiry::EPOCH(s * 1000)),
            None => None,
        }
    } else {
        match parse_decimal(digits, u128::MAX) {
            Some(ms) => Some(Expiry::EPOCH(ms)),
            None => None,
        }
    }
}

/// Tells whether `word` is one of the four expiry options.
fn expiry_word(word: &str) -> (is: bool)
    ensures
        is == is_expiry_word(word@),
{
    proof {
        reveal_strlit("ex");
        reveal_strlit("px");
        reveal_strlit("exat");
        reveal_strlit("pxat");
    }
    matches_word(word, "ex") || matches_word(word, "px") || matches_word(word, "exat")
        || matches_word(word, "pxat")
}

/// Reads the options of a `SET`: the arguments behind the key and the
/// value.
pub fn parse_options(options: &[BulkString]) -> (read: Result<SetOptions, SetFault>)
    ensures
        read == read_options(arg_views(options@), SetOptions { condition: None, expiry: None }),
{
    let ghost tokens = arg_views(options@);
    let mut so_far = SetOptions { condition: None, expiry: None };
    let mut i: usize = 0;
    proof {
        reveal_strlit("nx");
        reveal_strlit("xx");
        assert(tokens.skip(0) =~= tokens);
    }
    while i < options.len()
        invariant
            0 <= i <= options.len(),
            tokens == arg_views(options@),
            is_ascii("nx"),
            is_ascii("xx"),
            read_options(tokens, SetOptions { condition: None, expiry: None }) == read_options(
                tokens.skip(i as int),
                so_far,
            ),
        decreases options.len() - i,
    {
        let ghost rest = tokens.skip(i as int);
        proof {
            assert(rest[0] == options[i as int]@);
            assert(rest.drop_first() =~= tokens.skip(i + 1));
        }
        let word = options[i].0.as_str();
        if matches_word(word, "nx") {
            match so_far.condition {
                Some(SetCondition::XX) => {
                    return Err(SetFault::Syntax);
                },
                _ => {
                    so_far = SetOptions { condition: Some(SetCondition::NX), expiry: so_far.expiry };
                },
            }
            i = i + 1;
        } else if matches_word(word, "xx") {
            match so_far.condition {
                Some(SetCondition::NX) => {
                    return Err(SetFault::Syntax);
                },
                _ => {
                    so_far = SetOptions { condition: Some(SetCondition::XX), expiry: so_far.expiry };
                },
            }
            i = i + 1;
        } else if expiry_word(word) {
            if so_far.expiry.is_some() || options.len() - i < 2 {
                return Err(SetFault::Syntax);
            }
            proof {
                assert(rest[1] == options[i + 1]@);
                assert(rest.skip(2) =~= tokens.skip(i + 2));
            }
            match read_expiry(word, options[i + 1].0.as_str()) {
                None => {
                    return Err(SetFault::NotInteger);
                },
                Some(expiry) => {
                    so_far = SetOptions { condition: so_far.condition, expiry: Some(expiry) };
                },
            }
            i = i + 2;
        } else {
            return Err(SetFault::Syntax);
        }
    }
    Ok(so_far)
}

impl Execute for SetCommand {
    open spec fn outcome(&self, args: Seq<Seq<char>>, store: Store, now: Timestamp) -> (
        Resp,
        Store,
    ) {
        set_outcome(args, store, now)
    }

    fn execute(self, options: Vec<BulkString>, db: &mut Database, now: Timestamp) -> (reply:
        Value) {
        if options.len() < 2 {
            return error_reply("wrong number of arguments for 'set' command");
        }
        let ghost args = arg_views(options@);
        let tokens = slice_subrange(options.as_slice(), 2, options.len());
        assert(arg_views(tokens@) =~= args.skip(2));
        let read = match parse_options(tokens) {
            Ok(read) => read,
            Err(SetFault::Syntax) => {
                return error_reply("syntax error");
            },
            Err(SetFault::NotInteger) => {
                return error_reply("value is not an integer or out of range");
            },
        };
        let key = options[0].0.clone();
        let value = options[1].0.clone();
        let present = contains_key(db, &key);
        let held_back = match read.condition {
            Some(SetCondition::NX) => present,
            Some(SetCondition::XX) => !present,
            None => false,
        };
        if held_back {
            return Value::Nulls(Nulls);
        }
        let expiry = match read.expiry {
            Some(expiry) => expiry,
            None => Expiry::INFINITE,
        };
        let _ = insert(db, key, value, expiry, now);
        Value::SimpleString(SimpleString(String::from_str("Ok")))
    }
}

} // verus!
